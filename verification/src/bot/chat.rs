//! Player chat parsing, authorization, history, and protocol replies.

use super::replies::{listened_for, resolved, PendingReplies, RepliesView};
use crate::json::{
    bool_member, bool_value, json_text, null_value, set_member, str_member, str_value, value_text,
    JsonValue,
};
use crate::scan::{
    all_white, ascii_lower, begins, char_views, contains_text, find, find_from, first_word,
    first_words, found_character_is_first, found_place_is_first, is_white,
    leading_patterns_are_stripped, lowered, next_word, number_in, parse_int, pieces, same, split,
    starts_with, strip_all, strip_prefix, surrounding_space_adds_no_words, tight, to_ascii_lower,
    trim, trim_front, trim_start_matches, trimmed, trimming_gives_the_text_back, word_at, word_len,
    words, words_of_parted_texts, words_of_trimmed, written_numbers_are_read_back,
};
use crate::text::{dec, from_chars, push_dec_unsigned, text_view, to_chars};
use std::collections::VecDeque;
use vstd::prelude::*;
use vstd::string::*;

verus! {

/// A player's name without surrounding white space and without the prefix of the
/// server's own messages.
pub open spec fn normalized(name: Seq<char>) -> Seq<char> {
    let t = trimmed(name);
    if begins(t, "@__builtin)"@) {
        trimmed(t.skip("@__builtin)"@.len() as int))
    } else {
        t
    }
}

fn normalize(name: &[char]) -> (r: &[char])
    ensures
        r@ == normalized(name@),
{
    let t: &[char] = trim(name);
    match strip_prefix(t, "@__builtin)") {
        Some(rest) => trim(rest),
        None => t,
    }
}

pub fn normalize_player_name(name: &str) -> (r: String)
    ensures
        r@ == normalized(name@),
{
    from_chars(normalize(to_chars(name).as_slice()))
}

/// The player that a "*** name joined the game" message announces.
pub open spec fn joined_player(message: Seq<char>) -> Option<Seq<char>> {
    let t = trimmed(message);
    if !begins(t, "***"@) {
        None
    } else {
        let rest = trimmed(strip_all(t, "***"@));
        match find_from(rest, "joined the game"@, 0) {
            Some(pos) => {
                let name = trimmed(strip_all(trimmed(rest.take(pos)), "@"@));
                if name.len() > 0 {
                    Some(normalized(name))
                } else {
                    None
                }
            },
            None => None,
        }
    }
}

pub fn extract_chat_player(message: &str) -> (name: Option<String>)
    ensures
        text_view(name) == joined_player(message@),
{
    let chars: Vec<char> = to_chars(message);
    let t: &[char] = trim(chars.as_slice());
    if !starts_with(t, "***") {
        return None;
    }
    let rest: &[char] = trim(trim_start_matches(t, "***"));
    let pos: usize = find(rest, "joined the game")?;
    let head: &[char] = &rest[0..pos];
    assert(head@ =~= rest@.take(pos as int));
    let name: &[char] = trim(trim_start_matches(trim(head), "@"));
    if name.len() > 0 {
        Some(from_chars(normalize(name)))
    } else {
        None
    }
}

/// `name: rest`, both trimmed and not empty.
pub open spec fn colon_message(message: Seq<char>) -> Option<(Seq<char>, Seq<char>)> {
    match find_from(message, ":"@, 0) {
        Some(pos) => {
            let name = trimmed(message.take(pos));
            let rest = trimmed(message.skip(pos + ":"@.len()));
            if name.len() > 0 && rest.len() > 0 {
                Some((name, rest))
            } else {
                None
            }
        },
        None => None,
    }
}

/// `<name> rest`, both trimmed and not empty.
pub open spec fn angle_message(message: Seq<char>) -> Option<(Seq<char>, Seq<char>)> {
    if !begins(message, "<"@) {
        None
    } else {
        match find_from(message, ">"@, 0) {
            Some(end) => {
                let name = trimmed(message.subrange("<"@.len() as int, end));
                let rest = trimmed(message.skip(end + ">"@.len()));
                if name.len() > 0 && rest.len() > 0 {
                    Some((name, rest))
                } else {
                    None
                }
            },
            None => None,
        }
    }
}

pub open spec fn pair_view(p: Option<(String, String)>) -> Option<(Seq<char>, Seq<char>)> {
    match p {
        Some((a, b)) => Some((a@, b@)),
        None => None,
    }
}

pub fn parse_sender_colon_message(message: &str) -> (parsed: Option<(String, String)>)
    ensures
        pair_view(parsed) == colon_message(message@),
{
    let chars: Vec<char> = to_chars(message);
    let s: &[char] = chars.as_slice();
    let pos: usize = find(s, ":")?;
    proof {
        reveal_strlit(":");
        assert(":"@.len() == 1);
        assert(pos + 1 <= s.len());
    }
    let head: &[char] = &s[0..pos];
    let tail: &[char] = &s[pos + 1..s.len()];
    assert(head@ =~= message@.take(pos as int));
    assert(tail@ =~= message@.skip(pos + 1));
    let name: &[char] = trim(head);
    let rest: &[char] = trim(tail);
    if name.len() == 0 || rest.len() == 0 {
        return None;
    }
    Some((from_chars(name), from_chars(rest)))
}

pub fn parse_sender_angle_message(message: &str) -> (parsed: Option<(String, String)>)
    ensures
        pair_view(parsed) == angle_message(message@),
{
    let chars: Vec<char> = to_chars(message);
    let s: &[char] = chars.as_slice();
    if !starts_with(s, "<") {
        return None;
    }
    let end: usize = find(s, ">")?;
    proof {
        reveal_strlit("<");
        reveal_strlit(">");
        assert(s@.take(1)[0] == s@[0]);
        if end == 0 {
            assert(s@.subrange(0, 1)[0] == s@[0]);
            find_from_matches(s@, ">"@, 0);
        }
    }
    let head: &[char] = &s[1..end];
    let tail: &[char] = &s[end + 1..s.len()];
    assert(tail@ =~= message@.skip(end + 1));
    let name: &[char] = trim(head);
    let rest: &[char] = trim(tail);
    if name.len() == 0 || rest.len() == 0 {
        return None;
    }
    Some((from_chars(name), from_chars(rest)))
}

proof fn find_from_matches(s: Seq<char>, pat: Seq<char>, at: int)
    requires
        0 <= at,
    ensures
        match find_from(s, pat, at) {
            Some(i) => at <= i && i + pat.len() <= s.len() && s.subrange(i, i + pat.len()) == pat,
            None => true,
        },
    decreases s.len() + 1 - at,
{
    if at + pat.len() <= s.len() && s.subrange(at, at + pat.len()) != pat {
        find_from_matches(s, pat, at + 1);
    }
}

/// Who really said what: the sender, or, where there is none, the name in a
/// `name: message` or `<name> message`.
pub open spec fn effective_message(sender: Seq<char>, message: Seq<char>) -> (Seq<char>, Seq<char>) {
    let t = trimmed(message);
    if trimmed(sender).len() > 0 {
        (normalized(sender), t)
    } else {
        match colon_message(t) {
            Some((name, rest)) => (normalized(name), rest),
            None => match angle_message(t) {
                Some((name, rest)) => (normalized(name), rest),
                None => (seq![], t),
            },
        }
    }
}

pub fn effective_chat_sender_message(sender: &str, message: &str) -> (r: (String, String))
    ensures
        (r.0@, r.1@) == effective_message(sender@, message@),
{
    let sender_chars: Vec<char> = to_chars(sender);
    let message_chars: Vec<char> = to_chars(message);
    let text = from_chars(trim(message_chars.as_slice()));
    if trim(sender_chars.as_slice()).len() > 0 {
        return (normalize_player_name(sender), text);
    }
    if let Some((name, rest)) = parse_sender_colon_message(text.as_str()) {
        return (normalize_player_name(name.as_str()), rest);
    }
    if let Some((name, rest)) = parse_sender_angle_message(text.as_str()) {
        return (normalize_player_name(name.as_str()), rest);
    }
    let nobody = String::new();
    assert(nobody@ =~= seq![]);
    (nobody, text)
}

/// A message of the bot protocol: a tag that starts with `BOT_`, and a payload
/// behind the first space.
pub open spec fn protocol_message(message: Seq<char>) -> Option<(Seq<char>, Seq<char>)> {
    if !begins(message, "BOT_"@) {
        None
    } else {
        match find_from(message, " "@, 0) {
            Some(pos) => Some((message.take(pos), message.skip(pos + " "@.len()))),
            None => Some((message, seq![])),
        }
    }
}

pub fn bot_protocol_message(message: &str) -> (parsed: Option<(String, String)>)
    ensures
        pair_view(parsed) == protocol_message(message@),
{
    let chars: Vec<char> = to_chars(message);
    let s: &[char] = chars.as_slice();
    if !starts_with(s, "BOT_") {
        return None;
    }
    let space = find(s, " ");
    if let Some(pos) = space {
        proof {
            reveal_strlit(" ");
            assert(" "@.len() == 1);
        }
        assert(pos + 1 <= s.len());
        let head: &[char] = &s[0..pos];
        let tail: &[char] = &s[pos + 1..s.len()];
        assert(head@ =~= message@.take(pos as int));
        assert(tail@ =~= message@.skip(pos + 1));
        return Some((from_chars(head), from_chars(tail)));
    }
    let nothing = String::new();
    assert(nothing@ =~= seq![]);
    Some((message.to_owned(), nothing))
}

/// The server's answer that it does not know `command`.
pub open spec fn rejects_command(
    sender: Seq<char>,
    message: Seq<char>,
    command: Seq<char>,
) -> bool {
    contains_text(sender, "Invalid command"@) && strip_all(trimmed(message), "/"@) == command
}

pub fn is_invalid_server_command(sender: &str, message: &str, command: &str) -> (yes: bool)
    ensures
        yes == rejects_command(sender@, message@, command@),
{
    let sender_chars: Vec<char> = to_chars(sender);
    let message_chars: Vec<char> = to_chars(message);
    find(sender_chars.as_slice(), "Invalid command").is_some() && same(
        trim_start_matches(trim(message_chars.as_slice()), "/"),
        command,
    )
}

/// The tag of the reply that a bot command is answered with.
pub open spec fn reply_tag_of(command: Seq<char>) -> Option<Seq<char>> {
    if command == "bot_attack"@ {
        Some("BOT_ATTACK"@)
    } else if command == "bot_attack_mobs"@ {
        Some("BOT_DEFEND"@)
    } else if command == "bot_approach"@ {
        Some("BOT_APPROACH"@)
    } else if command == "bot_interact"@ {
        Some("BOT_INTERACT"@)
    } else if command == "bot_fight"@ {
        Some("BOT_FIGHT"@)
    } else if command == "bot_sleep"@ {
        Some("BOT_SLEEP"@)
    } else if command == "bot_mine"@ {
        Some("BOT_MINE"@)
    } else if command == "bot_collect"@ {
        Some("BOT_COLLECT"@)
    } else if command == "bot_prepare_mine"@ {
        Some("BOT_MINE_PREPARE"@)
    } else if command == "bot_verify_mine"@ {
        Some("BOT_MINE_VERIFY"@)
    } else if command == "bot_chest_inspect"@ {
        Some("BOT_CHEST_INSPECT"@)
    } else if command == "bot_chest_prepare"@ {
        Some("BOT_CHEST_PREPARE"@)
    } else if command == "bot_chest_receipt"@ {
        Some("BOT_CHEST_RECEIPT"@)
    } else if command == "bot_chest_cancel"@ {
        Some("BOT_CHEST_CANCEL"@)
    } else if command == "bot_chest_verify"@ {
        Some("BOT_CHEST_VERIFY"@)
    } else if command == "bot_furnace_inspect"@ {
        Some("BOT_FURNACE_INSPECT"@)
    } else if command == "bot_furnace_prepare"@ {
        Some("BOT_FURNACE_PREPARE"@)
    } else if command == "bot_furnace_receipt"@ {
        Some("BOT_FURNACE_RECEIPT"@)
    } else if command == "bot_furnace_cancel"@ {
        Some("BOT_FURNACE_CANCEL"@)
    } else if command == "bot_craft_prepare"@ {
        Some("BOT_CRAFT_PREPARE"@)
    } else if command == "bot_craft_receipt"@ {
        Some("BOT_CRAFT_RECEIPT"@)
    } else if command == "bot_craft_cancel"@ {
        Some("BOT_CRAFT_CANCEL"@)
    } else if command == "bot_place"@ {
        Some("BOT_PLACE"@)
    } else if command == "bot_drop"@ {
        Some("BOT_DROP"@)
    } else if command == "bot_wield"@ {
        Some("BOT_WIELD"@)
    } else if command == "bot_use"@ {
        Some("BOT_USE"@)
    } else if command == "bot_path_node"@ {
        Some("BOT_PATH_NODE"@)
    } else if command == "bot_gather_path"@ {
        Some("BOT_GATHER_PATH"@)
    } else if command == "bot_hunt_path"@ {
        Some("BOT_HUNT_PATH"@)
    } else if command == "bot_hunt"@ {
        Some("BOT_HUNT"@)
    } else {
        None
    }
}

fn known_command(command: &[char]) -> (known: Option<(&'static str, &'static str)>)
    ensures
        match known {
            Some((name, tag)) => name@ == command@ && reply_tag_of(command@) == Some(tag@),
            None => reply_tag_of(command@) is None,
        },
{
    if same(command, "bot_attack") {
        Some(("bot_attack", "BOT_ATTACK"))
    } else if same(command, "bot_attack_mobs") {
        Some(("bot_attack_mobs", "BOT_DEFEND"))
    } else if same(command, "bot_approach") {
        Some(("bot_approach", "BOT_APPROACH"))
    } else if same(command, "bot_interact") {
        Some(("bot_interact", "BOT_INTERACT"))
    } else if same(command, "bot_fight") {
        Some(("bot_fight", "BOT_FIGHT"))
    } else if same(command, "bot_sleep") {
        Some(("bot_sleep", "BOT_SLEEP"))
    } else if same(command, "bot_mine") {
        Some(("bot_mine", "BOT_MINE"))
    } else if same(command, "bot_collect") {
        Some(("bot_collect", "BOT_COLLECT"))
    } else if same(command, "bot_prepare_mine") {
        Some(("bot_prepare_mine", "BOT_MINE_PREPARE"))
    } else if same(command, "bot_verify_mine") {
        Some(("bot_verify_mine", "BOT_MINE_VERIFY"))
    } else if same(command, "bot_chest_inspect") {
        Some(("bot_chest_inspect", "BOT_CHEST_INSPECT"))
    } else if same(command, "bot_chest_prepare") {
        Some(("bot_chest_prepare", "BOT_CHEST_PREPARE"))
    } else if same(command, "bot_chest_receipt") {
        Some(("bot_chest_receipt", "BOT_CHEST_RECEIPT"))
    } else if same(command, "bot_chest_cancel") {
        Some(("bot_chest_cancel", "BOT_CHEST_CANCEL"))
    } else if same(command, "bot_chest_verify") {
        Some(("bot_chest_verify", "BOT_CHEST_VERIFY"))
    } else if same(command, "bot_furnace_inspect") {
        Some(("bot_furnace_inspect", "BOT_FURNACE_INSPECT"))
    } else if same(command, "bot_furnace_prepare") {
        Some(("bot_furnace_prepare", "BOT_FURNACE_PREPARE"))
    } else if same(command, "bot_furnace_receipt") {
        Some(("bot_furnace_receipt", "BOT_FURNACE_RECEIPT"))
    } else if same(command, "bot_furnace_cancel") {
        Some(("bot_furnace_cancel", "BOT_FURNACE_CANCEL"))
    } else if same(command, "bot_craft_prepare") {
        Some(("bot_craft_prepare", "BOT_CRAFT_PREPARE"))
    } else if same(command, "bot_craft_receipt") {
        Some(("bot_craft_receipt", "BOT_CRAFT_RECEIPT"))
    } else if same(command, "bot_craft_cancel") {
        Some(("bot_craft_cancel", "BOT_CRAFT_CANCEL"))
    } else if same(command, "bot_place") {
        Some(("bot_place", "BOT_PLACE"))
    } else if same(command, "bot_drop") {
        Some(("bot_drop", "BOT_DROP"))
    } else if same(command, "bot_wield") {
        Some(("bot_wield", "BOT_WIELD"))
    } else if same(command, "bot_use") {
        Some(("bot_use", "BOT_USE"))
    } else if same(command, "bot_path_node") {
        Some(("bot_path_node", "BOT_PATH_NODE"))
    } else if same(command, "bot_gather_path") {
        Some(("bot_gather_path", "BOT_GATHER_PATH"))
    } else if same(command, "bot_hunt_path") {
        Some(("bot_hunt_path", "BOT_HUNT_PATH"))
    } else if same(command, "bot_hunt") {
        Some(("bot_hunt", "BOT_HUNT"))
    } else {
        None
    }
}

/// What a request is answered with when the server does not know its command.
pub open spec fn unsupported_reply(command: Seq<char>) -> JsonValue {
    JsonValue::Object(
        Map::empty().insert("ok"@, JsonValue::Bool(false)).insert(
            "status"@,
            JsonValue::Str("unsupported_command"@),
        ).insert("command"@, JsonValue::Str(command)),
    )
}

/// The bot command that a message says the server does not know.
pub open spec fn unsupported_command(sender: Seq<char>, message: Seq<char>) -> Option<Seq<char>> {
    let command = strip_all(trimmed(message), "/"@);
    if contains_text(sender, "Invalid command"@) && reply_tag_of(command) is Some {
        Some(command)
    } else {
        None
    }
}

/// The replies once the server has been heard to say that it does not know a command.
pub open spec fn unsupported_resolved(
    r: RepliesView,
    sender: Seq<char>,
    message: Seq<char>,
) -> RepliesView {
    match unsupported_command(sender, message) {
        Some(command) => resolved(
            r,
            reply_tag_of(command)->0,
            json_text(unsupported_reply(command)),
        ),
        None => r,
    }
}

fn rejected_command(sender: &str, message: &str) -> (known: Option<(&'static str, &'static str)>)
    ensures
        match known {
            Some((command, tag)) => unsupported_command(sender@, message@) == Some(command@)
                && reply_tag_of(command@) == Some(tag@),
            None => unsupported_command(sender@, message@) is None,
        },
{
    let sender_chars: Vec<char> = to_chars(sender);
    let message_chars: Vec<char> = to_chars(message);
    if find(sender_chars.as_slice(), "Invalid command").is_none() {
        return None;
    }
    known_command(trim_start_matches(trim(message_chars.as_slice()), "/"))
}

/// Names the bot command that a message says the server does not know.
pub fn unsupported_bot_command(sender: &str, message: &str) -> (command: Option<&'static str>)
    ensures
        match command {
            Some(c) => unsupported_command(sender@, message@) == Some(c@),
            None => unsupported_command(sender@, message@) is None,
        },
{
    let (command, _) = rejected_command(sender, message)?;
    Some(command)
}

/// Answers the request whose command the server does not know, and names the command.
pub fn resolve_unsupported_bot_command(
    replies: &mut PendingReplies,
    sender: &str,
    message: &str,
) -> (command: Option<&'static str>)
    requires
        old(replies).wf(),
    ensures
        final(replies).wf(),
        match command {
            Some(c) => unsupported_command(sender@, message@) == Some(c@),
            None => unsupported_command(sender@, message@) is None,
        },
        final(replies)@ == unsupported_resolved(old(replies)@, sender@, message@),
{
    let (command, tag) = rejected_command(sender, message)?;
    let mut reply = null_value();
    set_member(&mut reply, "ok", bool_value(false));
    set_member(&mut reply, "status", str_value("unsupported_command"));
    set_member(&mut reply, "command", str_value(command));
    replies.resolve(tag, value_text(&reply));
    Some(command)
}

/// Where the server does not know the command of a request, the request that listens
/// for its reply is answered with that, and waits no longer.
pub proof fn unknown_command_answers_its_request(
    r: RepliesView,
    sender: Seq<char>,
    message: Seq<char>,
    command: Seq<char>,
)
    requires
        unsupported_command(sender, message) == Some(command),
        listened_for(r, reply_tag_of(command)->0),
    ensures
        ({
            let tag = reply_tag_of(command)->0;
            let after = unsupported_resolved(r, sender, message);
            &&& after.delivered == r.delivered.push(
                (r.waiting[tag].ticket, json_text(unsupported_reply(command))),
            )
            &&& !after.waiting.dom().contains(tag)
        }),
{
}

/// An order that a player gives in chat.
#[derive(Clone, Debug)]
pub enum ControlCommand {
    Follow(String),
    Teleport(String),
    Stop,
    Where,
    Attack(String),
    AttackMobs(Option<i32>),
    Sleep(Option<i32>),
    Approach(String),
    Interact(String),
    Fight(String),
}

/// The value of a [`ControlCommand`].
pub ghost enum ControlView {
    Follow(Seq<char>),
    Teleport(Seq<char>),
    Stop,
    Where,
    Attack(Seq<char>),
    AttackMobs(Option<i32>),
    Sleep(Option<i32>),
    Approach(Seq<char>),
    Interact(Seq<char>),
    Fight(Seq<char>),
}

impl View for ControlCommand {
    type V = ControlView;

    open spec fn view(&self) -> ControlView {
        match *self {
            ControlCommand::Follow(t) => ControlView::Follow(t@),
            ControlCommand::Teleport(t) => ControlView::Teleport(t@),
            ControlCommand::Stop => ControlView::Stop,
            ControlCommand::Where => ControlView::Where,
            ControlCommand::Attack(t) => ControlView::Attack(t@),
            ControlCommand::AttackMobs(r) => ControlView::AttackMobs(r),
            ControlCommand::Sleep(r) => ControlView::Sleep(r),
            ControlCommand::Approach(t) => ControlView::Approach(t@),
            ControlCommand::Interact(t) => ControlView::Interact(t@),
            ControlCommand::Fight(t) => ControlView::Fight(t@),
        }
    }
}

/// The number that an argument stands for, if it is one.
pub open spec fn radius_arg(arg: Seq<char>) -> Option<i32> {
    match number_in(arg, i32::MIN as int, i32::MAX as int) {
        Some(n) => Some(n as i32),
        None => None,
    }
}

/// The order in a chat message, which its first two words give.
pub open spec fn control_command(message: Seq<char>) -> Option<ControlView> {
    order_in(word_at(words(message), 0), word_at(words(message), 1))
}

/// The order that a word gives, which starts with `!`, in any case, and for some a
/// second word, which is empty where there is none.
pub open spec fn order_in(word: Seq<char>, arg: Seq<char>) -> Option<ControlView> {
    let cmd = lowered(word);
    if !begins(word, "!"@) {
        None
    } else if cmd == "!attackmobs"@ {
        Some(ControlView::AttackMobs(radius_arg(arg)))
    } else if cmd == "!sleep"@ {
        Some(ControlView::Sleep(radius_arg(arg)))
    } else if cmd == "!stop"@ {
        Some(ControlView::Stop)
    } else if cmd == "!where"@ {
        Some(ControlView::Where)
    } else if arg.len() == 0 {
        None
    } else if cmd == "!follow"@ {
        Some(ControlView::Follow(arg))
    } else if cmd == "!tp"@ {
        Some(ControlView::Teleport(arg))
    } else if cmd == "!attack"@ || cmd == "!attackall"@ {
        Some(ControlView::Attack(arg))
    } else if cmd == "!approach"@ {
        Some(ControlView::Approach(arg))
    } else if cmd == "!interact"@ {
        Some(ControlView::Interact(arg))
    } else if cmd == "!fight"@ {
        Some(ControlView::Fight(arg))
    } else {
        None
    }
}

fn parse_radius(arg: &[char]) -> (radius: Option<i32>)
    ensures
        radius == radius_arg(arg@),
{
    match parse_int(arg, i32::MIN as i128, i32::MAX as i128) {
        Some(n) => Some(n as i32),
        None => None,
    }
}

proof fn first_letter_is_kept(t: Seq<char>)
    requires
        t.len() > 0 ==> !is_white(t[0]) && trim_front(t) == t,
    ensures
        begins(t, "!"@) == begins(first_word(t), "!"@),
{
    reveal_strlit("!");
    assert("!"@.len() == 1);
    if t.len() > 0 {
        reveal_with_fuel(word_len, 2);
        let n = word_len(t) as int;
        assert(n >= 1);
        word_fits(t);
        assert(t.take(1) =~= t.take(n).take(1));
    } else {
        assert(trim_front(t) =~= t);
        assert(first_word(t) =~= t);
    }
}

proof fn word_fits(t: Seq<char>)
    ensures
        word_len(t) <= t.len(),
    decreases t.len(),
{
    if t.len() > 0 {
        word_fits(t.drop_first());
    }
}

pub fn parse_control_command(message: &str) -> (command: Option<ControlCommand>)
    ensures
        match command {
            Some(c) => control_command(message@) == Some(c@),
            None => control_command(message@) is None,
        },
{
    let chars: Vec<char> = to_chars(message);
    let t: &[char] = trim(chars.as_slice());
    proof {
        words_of_trimmed(message@);
        first_words(t@);
        first_letter_is_kept(t@);
    }
    if !starts_with(t, "!") {
        return None;
    }
    let (word, rest) = next_word(t);
    let (arg, _) = next_word(rest);
    let lower: Vec<char> = to_ascii_lower(word);
    let cmd: &[char] = lower.as_slice();
    if same(cmd, "!attackmobs") {
        return Some(ControlCommand::AttackMobs(parse_radius(arg)));
    }
    if same(cmd, "!sleep") {
        return Some(ControlCommand::Sleep(parse_radius(arg)));
    }
    if same(cmd, "!stop") {
        return Some(ControlCommand::Stop);
    }
    if same(cmd, "!where") {
        return Some(ControlCommand::Where);
    }
    if arg.len() == 0 {
        return None;
    }
    if same(cmd, "!follow") {
        Some(ControlCommand::Follow(from_chars(arg)))
    } else if same(cmd, "!tp") {
        Some(ControlCommand::Teleport(from_chars(arg)))
    } else if same(cmd, "!attack") || same(cmd, "!attackall") {
        Some(ControlCommand::Attack(from_chars(arg)))
    } else if same(cmd, "!approach") {
        Some(ControlCommand::Approach(from_chars(arg)))
    } else if same(cmd, "!interact") {
        Some(ControlCommand::Interact(from_chars(arg)))
    } else if same(cmd, "!fight") {
        Some(ControlCommand::Fight(from_chars(arg)))
    } else {
        None
    }
}

/// An order does not depend on the case of its first word, nor on anything but its
/// first two words.
pub proof fn order_is_in_two_words(a: Seq<char>, b: Seq<char>)
    requires
        lowered(word_at(words(a), 0)) == lowered(word_at(words(b), 0)),
        word_at(words(a), 1) == word_at(words(b), 1),
    ensures
        control_command(a) == control_command(b),
{
    mark_survives_lowering(word_at(words(a), 0));
    mark_survives_lowering(word_at(words(b), 0));
}

proof fn mark_survives_lowering(word: Seq<char>)
    ensures
        begins(word, "!"@) == begins(lowered(word), "!"@),
{
    reveal_strlit("!");
    assert("!"@.len() == 1);
    if word.len() > 0 {
        assert(lowered(word)[0] == ascii_lower(word[0]));
        assert((ascii_lower(word[0]) == '!') == (word[0] == '!'));
        assert(word.take(1) =~= seq![word[0]]);
        assert(lowered(word).take(1) =~= seq![ascii_lower(word[0])]);
        assert("!"@ =~= seq!['!']);
        assert(seq![word[0]][0] == word[0]);
        assert(seq![ascii_lower(word[0])][0] == ascii_lower(word[0]));
    }
}

/// White space around a message does not change its order.
pub proof fn order_ignores_surrounding_space(
    front: Seq<char>,
    message: Seq<char>,
    back: Seq<char>,
)
    requires
        all_white(front),
        all_white(back),
    ensures
        control_command(front + message + back) == control_command(message),
{
    surrounding_space_adds_no_words(front, message, back);
}

/// Words behind the second one do not change an order.
pub proof fn order_ignores_later_words(message: Seq<char>, c: char, more: Seq<char>)
    requires
        words(message).len() >= 2,
        is_white(c),
    ensures
        control_command(message + (seq![c] + more)) == control_command(message),
{
    words_of_parted_texts(message, c, more);
}

/// The names among comma separated entries, without the blank ones.
pub open spec fn allowed_names(entries: Seq<Seq<char>>) -> Seq<Seq<char>>
    decreases entries.len(),
{
    if entries.len() == 0 {
        seq![]
    } else {
        let before = allowed_names(entries.drop_last());
        let name = trimmed(entries.last());
        if name.len() == 0 {
            before
        } else {
            before.push(normalized(name))
        }
    }
}

pub open spec fn string_views(v: Seq<String>) -> Seq<Seq<char>> {
    v.map_values(|s: String| s@)
}

pub fn parse_allowlist(value: &str) -> (names: Vec<String>)
    ensures
        string_views(names@) == allowed_names(pieces(value@, ',')),
{
    let chars: Vec<char> = to_chars(value);
    let entries: Vec<Vec<char>> = split(chars.as_slice(), ',');
    let mut names: Vec<String> = Vec::new();
    let mut i: usize = 0;
    let ghost all = char_views(entries@);
    assert(string_views(names@) =~= allowed_names(all.take(0)));
    while i < entries.len()
        invariant
            i <= entries.len(),
            all == char_views(entries@),
            string_views(names@) == allowed_names(all.take(i as int)),
        decreases entries.len() - i,
    {
        assert(all.take(i + 1).drop_last() =~= all.take(i as int));
        assert(all.take(i + 1).last() == entries@[i as int]@);
        let name: &[char] = trim(entries[i].as_slice());
        if name.len() > 0 {
            let ghost before = names@;
            names.push(from_chars(normalize(name)));
            assert(string_views(names@) =~= string_views(before).push(normalized(name@)));
        }
        i = i + 1;
    }
    assert(all.take(i as int) =~= all);
    names
}

/// Without an allow list everybody is allowed, with one only those on it.
pub open spec fn sender_allowed(allow_list: Seq<Seq<char>>, sender: Seq<char>) -> bool {
    allow_list.len() == 0 || allow_list.contains(normalized(sender))
}

pub fn is_sender_allowed(allow_list: &[String], sender: &str) -> (allowed: bool)
    ensures
        allowed == sender_allowed(string_views(allow_list@), sender@),
{
    if allow_list.len() == 0 {
        return true;
    }
    let name = normalize_player_name(sender);
    let ghost views = string_views(allow_list@);
    let mut i: usize = 0;
    while i < allow_list.len()
        invariant
            i <= allow_list.len(),
            views == string_views(allow_list@),
            name@ == normalized(sender@),
            forall|k: int| 0 <= k < i ==> #[trigger] views[k] != name@,
        decreases allow_list.len() - i,
    {
        if allow_list[i] == name {
            assert(views[i as int] == name@);
            return true;
        }
        assert(views[i as int] != name@);
        i = i + 1;
    }
    false
}

pub open spec fn upper_hex(d: int) -> char {
    if d < 10 {
        ('0' as u32 + d) as char
    } else {
        ('A' as u32 + d - 10) as char
    }
}

/// One character inside a JSON string.
pub open spec fn escape_of(c: char) -> Seq<char> {
    if c == '"' {
        seq!['\\', '"']
    } else if c == '\\' {
        seq!['\\', '\\']
    } else if c == '\n' {
        seq!['\\', 'n']
    } else if c == '\r' {
        seq!['\\', 'r']
    } else if c == '\t' {
        seq!['\\', 't']
    } else if c <= '\u{1f}' {
        seq!['\\', 'u', '0', '0', upper_hex(c as int / 16), upper_hex(c as int % 16)]
    } else {
        seq![c]
    }
}

/// A text inside a JSON string.
pub open spec fn escaped(s: Seq<char>) -> Seq<char>
    decreases s.len(),
{
    if s.len() == 0 {
        seq![]
    } else {
        escaped(s.drop_last()) + escape_of(s.last())
    }
}

fn push_upper_hex(out: &mut String, d: u32)
    requires
        d < 16,
    ensures
        final(out)@ == old(out)@.push(upper_hex(d as int)),
{
    let c: char = if d < 10 { (48 + d as u8) as char } else { (55 + d as u8) as char };
    out.push(c);
}

fn push_escape(out: &mut String, c: char)
    ensures
        final(out)@ == old(out)@ + escape_of(c),
{
    if c == '"' {
        out.push('\\');
        out.push('"');
    } else if c == '\\' {
        out.push('\\');
        out.push('\\');
    } else if c == '\n' {
        out.push('\\');
        out.push('n');
    } else if c == '\r' {
        out.push('\\');
        out.push('r');
    } else if c == '\t' {
        out.push('\\');
        out.push('t');
    } else if c <= '\u{1f}' {
        out.push('\\');
        out.push('u');
        out.push('0');
        out.push('0');
        push_upper_hex(out, c as u32 / 16);
        push_upper_hex(out, c as u32 % 16);
    } else {
        out.push(c);
    }
    assert(out@ =~= old(out)@ + escape_of(c));
}

/// Escapes a text for use inside a JSON string.
pub fn json_escape(value: &str) -> (out: String)
    ensures
        out@ == escaped(value@),
{
    let chars: Vec<char> = to_chars(value);
    let mut out = String::new();
    let mut i: usize = 0;
    assert(out@ =~= escaped(value@.take(0)));
    while i < chars.len()
        invariant
            i <= chars.len(),
            chars@ == value@,
            out@ == escaped(value@.take(i as int)),
        decreases chars.len() - i,
    {
        assert(value@.take(i + 1).drop_last() =~= value@.take(i as int));
        push_escape(&mut out, chars[i]);
        i = i + 1;
    }
    assert(value@.take(i as int) =~= value@);
    out
}

/// Inside a JSON string there is no control character, and a quote only behind a
/// backslash: an escaped text can neither end the string nor break the line.
pub proof fn escaped_text_stays_inside_its_string(s: Seq<char>, i: int)
    requires
        0 <= i < escaped(s).len(),
    ensures
        escaped(s)[i] > '\u{1f}',
        escaped(s)[i] == '"' ==> i > 0 && escaped(s)[i - 1] == '\\',
    decreases s.len(),
{
    let before = escaped(s.drop_last());
    let last = escape_of(s.last());
    if i < before.len() {
        escaped_text_stays_inside_its_string(s.drop_last(), i);
    } else {
        assert(escaped(s)[i] == last[i - before.len()]);
        escape_of_is_plain(s.last());
    }
}

proof fn escape_of_is_plain(c: char)
    ensures
        forall|k: int|
            0 <= k < escape_of(c).len() ==> #[trigger] escape_of(c)[k] > '\u{1f}' && (escape_of(
                c,
            )[k] == '"' ==> k > 0 && escape_of(c)[k - 1] == '\\'),
{
}

/// How many chat messages are kept.
pub const CHAT_HISTORY: usize = 200;

/// A chat message, as it is kept.
#[derive(Clone, Debug)]
pub struct ChatEntry {
    pub id: u64,
    pub ts_ms: u128,
    pub sender: String,
    pub message: String,
}

/// The value of a [`ChatEntry`].
pub ghost struct EntryView {
    pub id: u64,
    pub ts_ms: u128,
    pub sender: Seq<char>,
    pub message: Seq<char>,
}

impl View for ChatEntry {
    type V = EntryView;

    open spec fn view(&self) -> EntryView {
        EntryView {
            id: self.id,
            ts_ms: self.ts_ms,
            sender: self.sender@,
            message: self.message@,
        }
    }
}

pub open spec fn entry_views(entries: Seq<ChatEntry>) -> Seq<EntryView> {
    entries.map_values(|e: ChatEntry| e@)
}

/// The latest chat messages.
pub struct ChatLog {
    next_id: u64,
    entries: VecDeque<ChatEntry>,
}

/// The value of a [`ChatLog`].
pub ghost struct LogView {
    pub next_id: u64,
    pub entries: Seq<EntryView>,
}

impl View for ChatLog {
    type V = LogView;

    closed spec fn view(&self) -> LogView {
        LogView { next_id: self.next_id, entries: entry_views(self.entries@) }
    }
}

/// At most the latest messages are kept, their ids start at one and increase.
pub open spec fn log_wf(log: LogView) -> bool {
    &&& log.next_id >= 1
    &&& log.entries.len() <= CHAT_HISTORY
    &&& forall|i: int|
        0 <= i < log.entries.len() ==> 1 <= (#[trigger] log.entries[i]).id && (log.entries[i].id
            < log.next_id || log.next_id == u64::MAX)
    &&& forall|i: int, j: int|
        0 <= i < j < log.entries.len() ==> (#[trigger] log.entries[i]).id < (
        #[trigger] log.entries[j]).id || log.next_id == u64::MAX
}

/// The log once a message has come in.
pub open spec fn logged(
    log: LogView,
    ts_ms: u128,
    sender: Seq<char>,
    message: Seq<char>,
) -> LogView {
    let all = log.entries.push(EntryView { id: log.next_id, ts_ms, sender, message });
    LogView {
        next_id: if log.next_id == u64::MAX {
            u64::MAX
        } else {
            (log.next_id + 1) as u64
        },
        entries: if all.len() > CHAT_HISTORY {
            all.skip(all.len() - CHAT_HISTORY)
        } else {
            all
        },
    }
}

impl ChatLog {
    /// See [`log_wf`].
    pub open spec fn wf(&self) -> bool {
        log_wf(self@)
    }
}

impl Default for ChatLog {
    /// A cursor of zero means that no message has been seen, so ids start at one.
    fn default() -> (log: Self)
        ensures
            log.wf(),
            log@ == (LogView { next_id: 1, entries: seq![] }),
    {
        let log = ChatLog { next_id: 1, entries: VecDeque::new() };
        assert(log@.entries =~= seq![]);
        log
    }
}

/// Keeps a message that came in at `ts_ms`, and drops the oldest beyond the limit.
pub fn log_chat(chat_log: &mut ChatLog, ts_ms: u128, sender: &str, message: &str)
    requires
        old(chat_log).wf(),
    ensures
        final(chat_log).wf(),
        final(chat_log)@ == logged(old(chat_log)@, ts_ms, sender@, message@),
{
    let id: u64 = chat_log.next_id;
    chat_log.next_id = chat_log.next_id.saturating_add(1);
    let entry = ChatEntry { id, ts_ms, sender: sender.to_owned(), message: message.to_owned() };
    chat_log.entries.push_back(entry);
    let ghost all = chat_log@.entries;
    assert(all =~= old(chat_log)@.entries.push(entry@));
    if chat_log.entries.len() > CHAT_HISTORY {
        chat_log.entries.pop_front();
        assert(chat_log@.entries =~= all.skip(all.len() - CHAT_HISTORY));
    }
    proof {
        logging_keeps_order(old(chat_log)@, ts_ms, sender@, message@);
    }
}

proof fn logging_keeps_order(log: LogView, ts_ms: u128, sender: Seq<char>, message: Seq<char>)
    requires
        log_wf(log),
    ensures
        log_wf(logged(log, ts_ms, sender, message)),
{
    let after = logged(log, ts_ms, sender, message);
    let all = log.entries.push(EntryView { id: log.next_id, ts_ms, sender, message });
    let drop = if all.len() > CHAT_HISTORY { all.len() - CHAT_HISTORY } else { 0 };
    assert forall|i: int| 0 <= i < after.entries.len() implies 1 <= (#[trigger] after.entries[i]).id
        && (after.entries[i].id < after.next_id || after.next_id == u64::MAX) by {
        assert(after.entries[i] == all[i + drop]);
        if i + drop < log.entries.len() {
            assert(log.entries[i + drop].id >= 1);
        }
    }
    assert forall|i: int, j: int| 0 <= i < j < after.entries.len() implies (
    #[trigger] after.entries[i]).id < (#[trigger] after.entries[j]).id || after.next_id
        == u64::MAX by {
        assert(after.entries[i] == all[i + drop]);
        assert(after.entries[j] == all[j + drop]);
        assert(log.entries[i + drop] == all[i + drop]);
        if j + drop < log.entries.len() {
            assert(log.entries[j + drop] == all[j + drop]);
        }
    }
}

/// The messages behind the cursor.
pub open spec fn newer(entries: Seq<EntryView>, since: u64) -> Seq<EntryView>
    decreases entries.len(),
{
    if entries.len() == 0 {
        seq![]
    } else if entries.last().id > since {
        newer(entries.drop_last(), since).push(entries.last())
    } else {
        newer(entries.drop_last(), since)
    }
}

/// The oldest messages behind the cursor, up to a limit of at least one.
pub open spec fn collected(log: LogView, since: u64, limit: int) -> Seq<EntryView> {
    let all = newer(log.entries, since);
    let most = if limit < 1 { 1int } else { limit };
    if all.len() <= most {
        all
    } else {
        all.take(most)
    }
}

/// The cursor behind the latest message.
pub open spec fn last_id(log: LogView) -> u64 {
    if log.next_id == 0 {
        0
    } else {
        (log.next_id - 1) as u64
    }
}

fn copy_entry(e: &ChatEntry) -> (c: ChatEntry)
    ensures
        c@ == e@,
{
    ChatEntry { id: e.id, ts_ms: e.ts_ms, sender: e.sender.clone(), message: e.message.clone() }
}

proof fn newer_grows(entries: Seq<EntryView>, since: u64, i: int)
    requires
        0 <= i <= entries.len(),
    ensures
        newer(entries.take(i), since).is_prefix_of(newer(entries, since)),
    decreases entries.len(),
{
    if i == entries.len() {
        assert(entries.take(i) =~= entries);
    } else {
        newer_grows(entries.drop_last(), since, i);
        assert(entries.drop_last().take(i) =~= entries.take(i));
    }
}

/// The messages behind the cursor, and the cursor for the next call.
pub fn collect_chat_entries(chat_log: &ChatLog, since: u64, limit: usize) -> (r: (
    Vec<ChatEntry>,
    u64,
))
    ensures
        entry_views(r.0@) == collected(chat_log@, since, limit as int),
        r.1 == last_id(chat_log@),
{
    let mut out: Vec<ChatEntry> = Vec::new();
    let ghost all = chat_log@.entries;
    let mut i: usize = 0;
    let mut full = false;
    assert(entry_views(out@) =~= newer(all.take(0), since));
    while i < chat_log.entries.len() && !full
        invariant
            i <= chat_log.entries@.len(),
            all == entry_views(chat_log.entries@),
            entry_views(out@) == newer(all.take(i as int), since),
            full == (out@.len() >= 1 && out@.len() >= limit),
            out@.len() <= limit || out@.len() <= 1,
        decreases chat_log.entries@.len() - i,
    {
        let entry: &ChatEntry = &chat_log.entries[i];
        assert(all.take(i + 1).drop_last() =~= all.take(i as int));
        assert(all.take(i + 1).last() == entry@);
        if entry.id > since {
            let ghost before = out@;
            out.push(copy_entry(entry));
            assert(entry_views(out@) =~= entry_views(before).push(entry@));
            full = out.len() >= limit;
        }
        i = i + 1;
    }
    proof {
        newer_grows(all, since, i as int);
        if !full {
            assert(all.take(i as int) =~= all);
        }
        assert(entry_views(out@) =~= collected(chat_log@, since, limit as int));
    }
    let next: u64 = chat_log.next_id.saturating_sub(1);
    (out, next)
}

/// A reader that passes on the cursor it was given sees each message once: what
/// comes in after a call, and only that, is what the next call returns.
pub proof fn chat_cursor_sees_each_message_once(
    log: LogView,
    ts_ms: u128,
    sender: Seq<char>,
    message: Seq<char>,
    limit: int,
)
    requires
        log_wf(log),
        log.next_id < u64::MAX,
    ensures
        collected(log, last_id(log), limit) == Seq::<EntryView>::empty(),
        collected(logged(log, ts_ms, sender, message), last_id(log), limit) == seq![
            EntryView { id: log.next_id, ts_ms, sender, message },
        ],
{
    none_newer(log.entries, last_id(log));
    let after = logged(log, ts_ms, sender, message);
    let n = after.entries.len();
    let old_part = after.entries.drop_last();
    assert forall|i: int| 0 <= i < old_part.len() implies (#[trigger] old_part[i]).id <= last_id(
        log,
    ) by {
        let drop = log.entries.len() + 1 - n;
        assert(old_part[i] == log.entries[i + drop]);
    }
    none_newer(old_part, last_id(log));
    assert(newer(after.entries, last_id(log)) =~= seq![after.entries.last()]);
}

proof fn none_newer(entries: Seq<EntryView>, since: u64)
    requires
        forall|i: int| 0 <= i < entries.len() ==> (#[trigger] entries[i]).id <= since,
    ensures
        newer(entries, since) == Seq::<EntryView>::empty(),
    decreases entries.len(),
{
    if entries.len() > 0 {
        let before = entries.drop_last();
        assert forall|i: int| 0 <= i < before.len() implies (#[trigger] before[i]).id <= since by {
            assert(before[i] == entries[i]);
        }
        none_newer(before, since);
    }
}

/// One message in JSON.
pub open spec fn entry_json(e: EntryView) -> Seq<char> {
    "{"@ + "\"id\":"@ + dec(e.id as int) + ",\"ts_ms\":"@ + dec(e.ts_ms as int) + ",\"from\":\""@
        + escaped(e.sender) + "\",\"msg\":\""@ + escaped(e.message) + "\"}"@
}

/// Messages in JSON, with commas between them.
pub open spec fn entries_json(entries: Seq<EntryView>) -> Seq<char>
    decreases entries.len(),
{
    if entries.len() == 0 {
        seq![]
    } else if entries.len() == 1 {
        entry_json(entries[0])
    } else {
        entries_json(entries.drop_last()) + ","@ + entry_json(entries.last())
    }
}

pub open spec fn chat_json(entries: Seq<EntryView>, last: u64) -> Seq<char> {
    "{\"last\":"@ + dec(last as int) + ",\"messages\":["@ + entries_json(entries) + "]}"@
}

fn push_entry_json(out: &mut String, e: &ChatEntry)
    ensures
        final(out)@ == old(out)@ + entry_json(e@),
{
    out.append("{");
    out.append("\"id\":");
    push_dec_unsigned(out, e.id as u128);
    out.append(",\"ts_ms\":");
    push_dec_unsigned(out, e.ts_ms);
    out.append(",\"from\":\"");
    out.append(json_escape(e.sender.as_str()).as_str());
    out.append("\",\"msg\":\"");
    out.append(json_escape(e.message.as_str()).as_str());
    out.append("\"}");
    assert(out@ =~= old(out)@ + entry_json(e@));
}

/// Chat messages as the HTTP interface reports them.
pub fn build_chat_json(entries: Vec<ChatEntry>, last: u64) -> (out: String)
    ensures
        out@ == chat_json(entry_views(entries@), last),
{
    let mut out = "{\"last\":".to_owned();
    push_dec_unsigned(&mut out, last as u128);
    out.append(",\"messages\":[");
    let ghost head = out@;
    let ghost all = entry_views(entries@);
    let mut i: usize = 0;
    assert(out@ =~= head + entries_json(all.take(0)));
    while i < entries.len()
        invariant
            i <= entries.len(),
            all == entry_views(entries@),
            out@ == head + entries_json(all.take(i as int)),
        decreases entries.len() - i,
    {
        assert(all.take(i + 1).drop_last() =~= all.take(i as int));
        assert(all.take(i + 1).last() == entries@[i as int]@);
        if i > 0 {
            out.append(",");
        }
        push_entry_json(&mut out, &entries[i]);
        i = i + 1;
        assert(out@ =~= head + entries_json(all.take(i as int)));
    }
    assert(all.take(i as int) =~= all);
    out.append("]}");
    out
}

pub open spec fn ascii_upper(c: char) -> char {
    if 'a' <= c <= 'z' {
        (c as u32 - 32) as char
    } else {
        c
    }
}

pub open spec fn uppered(s: Seq<char>) -> Seq<char> {
    s.map_values(|c: char| ascii_upper(c))
}

/// The reply to a bot command bears the command in capitals as its tag, but for the attack on
/// mobs, which is a defence, and for the two steps of a dig, which name the digging first.
pub proof fn replies_bear_their_command(command: Seq<char>)
    requires
        reply_tag_of(command) is Some,
    ensures
        command == "bot_attack_mobs"@ || command == "bot_prepare_mine"@ || command
            == "bot_verify_mine"@ || reply_tag_of(command) == Some(uppered(command)),
        reply_tag_of("bot_attack_mobs"@) == Some("BOT_DEFEND"@),
        reply_tag_of("bot_prepare_mine"@) == Some("BOT_MINE_PREPARE"@),
        reply_tag_of("bot_verify_mine"@) == Some("BOT_MINE_VERIFY"@),
{
    assert(uppered("bot_attack"@) == "BOT_ATTACK"@) by {
        reveal_strlit("bot_attack");
        reveal_strlit("BOT_ATTACK");
        assert(uppered("bot_attack"@) =~= "BOT_ATTACK"@);
    }
    assert(uppered("bot_approach"@) == "BOT_APPROACH"@) by {
        reveal_strlit("bot_approach");
        reveal_strlit("BOT_APPROACH");
        assert(uppered("bot_approach"@) =~= "BOT_APPROACH"@);
    }
    assert(uppered("bot_interact"@) == "BOT_INTERACT"@) by {
        reveal_strlit("bot_interact");
        reveal_strlit("BOT_INTERACT");
        assert(uppered("bot_interact"@) =~= "BOT_INTERACT"@);
    }
    assert(uppered("bot_fight"@) == "BOT_FIGHT"@) by {
        reveal_strlit("bot_fight");
        reveal_strlit("BOT_FIGHT");
        assert(uppered("bot_fight"@) =~= "BOT_FIGHT"@);
    }
    assert(uppered("bot_sleep"@) == "BOT_SLEEP"@) by {
        reveal_strlit("bot_sleep");
        reveal_strlit("BOT_SLEEP");
        assert(uppered("bot_sleep"@) =~= "BOT_SLEEP"@);
    }
    assert(uppered("bot_mine"@) == "BOT_MINE"@) by {
        reveal_strlit("bot_mine");
        reveal_strlit("BOT_MINE");
        assert(uppered("bot_mine"@) =~= "BOT_MINE"@);
    }
    assert(uppered("bot_collect"@) == "BOT_COLLECT"@) by {
        reveal_strlit("bot_collect");
        reveal_strlit("BOT_COLLECT");
        assert(uppered("bot_collect"@) =~= "BOT_COLLECT"@);
    }
    assert(uppered("bot_chest_inspect"@) == "BOT_CHEST_INSPECT"@) by {
        reveal_strlit("bot_chest_inspect");
        reveal_strlit("BOT_CHEST_INSPECT");
        assert(uppered("bot_chest_inspect"@) =~= "BOT_CHEST_INSPECT"@);
    }
    assert(uppered("bot_chest_prepare"@) == "BOT_CHEST_PREPARE"@) by {
        reveal_strlit("bot_chest_prepare");
        reveal_strlit("BOT_CHEST_PREPARE");
        assert(uppered("bot_chest_prepare"@) =~= "BOT_CHEST_PREPARE"@);
    }
    assert(uppered("bot_chest_receipt"@) == "BOT_CHEST_RECEIPT"@) by {
        reveal_strlit("bot_chest_receipt");
        reveal_strlit("BOT_CHEST_RECEIPT");
        assert(uppered("bot_chest_receipt"@) =~= "BOT_CHEST_RECEIPT"@);
    }
    assert(uppered("bot_chest_cancel"@) == "BOT_CHEST_CANCEL"@) by {
        reveal_strlit("bot_chest_cancel");
        reveal_strlit("BOT_CHEST_CANCEL");
        assert(uppered("bot_chest_cancel"@) =~= "BOT_CHEST_CANCEL"@);
    }
    assert(uppered("bot_chest_verify"@) == "BOT_CHEST_VERIFY"@) by {
        reveal_strlit("bot_chest_verify");
        reveal_strlit("BOT_CHEST_VERIFY");
        assert(uppered("bot_chest_verify"@) =~= "BOT_CHEST_VERIFY"@);
    }
    assert(uppered("bot_furnace_inspect"@) == "BOT_FURNACE_INSPECT"@) by {
        reveal_strlit("bot_furnace_inspect");
        reveal_strlit("BOT_FURNACE_INSPECT");
        assert(uppered("bot_furnace_inspect"@) =~= "BOT_FURNACE_INSPECT"@);
    }
    assert(uppered("bot_furnace_prepare"@) == "BOT_FURNACE_PREPARE"@) by {
        reveal_strlit("bot_furnace_prepare");
        reveal_strlit("BOT_FURNACE_PREPARE");
        assert(uppered("bot_furnace_prepare"@) =~= "BOT_FURNACE_PREPARE"@);
    }
    assert(uppered("bot_furnace_receipt"@) == "BOT_FURNACE_RECEIPT"@) by {
        reveal_strlit("bot_furnace_receipt");
        reveal_strlit("BOT_FURNACE_RECEIPT");
        assert(uppered("bot_furnace_receipt"@) =~= "BOT_FURNACE_RECEIPT"@);
    }
    assert(uppered("bot_furnace_cancel"@) == "BOT_FURNACE_CANCEL"@) by {
        reveal_strlit("bot_furnace_cancel");
        reveal_strlit("BOT_FURNACE_CANCEL");
        assert(uppered("bot_furnace_cancel"@) =~= "BOT_FURNACE_CANCEL"@);
    }
    assert(uppered("bot_craft_prepare"@) == "BOT_CRAFT_PREPARE"@) by {
        reveal_strlit("bot_craft_prepare");
        reveal_strlit("BOT_CRAFT_PREPARE");
        assert(uppered("bot_craft_prepare"@) =~= "BOT_CRAFT_PREPARE"@);
    }
    assert(uppered("bot_craft_receipt"@) == "BOT_CRAFT_RECEIPT"@) by {
        reveal_strlit("bot_craft_receipt");
        reveal_strlit("BOT_CRAFT_RECEIPT");
        assert(uppered("bot_craft_receipt"@) =~= "BOT_CRAFT_RECEIPT"@);
    }
    assert(uppered("bot_craft_cancel"@) == "BOT_CRAFT_CANCEL"@) by {
        reveal_strlit("bot_craft_cancel");
        reveal_strlit("BOT_CRAFT_CANCEL");
        assert(uppered("bot_craft_cancel"@) =~= "BOT_CRAFT_CANCEL"@);
    }
    assert(uppered("bot_place"@) == "BOT_PLACE"@) by {
        reveal_strlit("bot_place");
        reveal_strlit("BOT_PLACE");
        assert(uppered("bot_place"@) =~= "BOT_PLACE"@);
    }
    assert(uppered("bot_drop"@) == "BOT_DROP"@) by {
        reveal_strlit("bot_drop");
        reveal_strlit("BOT_DROP");
        assert(uppered("bot_drop"@) =~= "BOT_DROP"@);
    }
    assert(uppered("bot_wield"@) == "BOT_WIELD"@) by {
        reveal_strlit("bot_wield");
        reveal_strlit("BOT_WIELD");
        assert(uppered("bot_wield"@) =~= "BOT_WIELD"@);
    }
    assert(uppered("bot_use"@) == "BOT_USE"@) by {
        reveal_strlit("bot_use");
        reveal_strlit("BOT_USE");
        assert(uppered("bot_use"@) =~= "BOT_USE"@);
    }
    assert(uppered("bot_path_node"@) == "BOT_PATH_NODE"@) by {
        reveal_strlit("bot_path_node");
        reveal_strlit("BOT_PATH_NODE");
        assert(uppered("bot_path_node"@) =~= "BOT_PATH_NODE"@);
    }
    assert(uppered("bot_gather_path"@) == "BOT_GATHER_PATH"@) by {
        reveal_strlit("bot_gather_path");
        reveal_strlit("BOT_GATHER_PATH");
        assert(uppered("bot_gather_path"@) =~= "BOT_GATHER_PATH"@);
    }
    assert(uppered("bot_hunt_path"@) == "BOT_HUNT_PATH"@) by {
        reveal_strlit("bot_hunt_path");
        reveal_strlit("BOT_HUNT_PATH");
        assert(uppered("bot_hunt_path"@) =~= "BOT_HUNT_PATH"@);
    }
    assert(uppered("bot_hunt"@) == "BOT_HUNT"@) by {
        reveal_strlit("bot_hunt");
        reveal_strlit("BOT_HUNT");
        assert(uppered("bot_hunt"@) =~= "BOT_HUNT"@);
    }
    special_commands_are_told_apart();
}

proof fn special_commands_are_told_apart()
    ensures
        reply_tag_of("bot_attack_mobs"@) == Some("BOT_DEFEND"@),
        reply_tag_of("bot_prepare_mine"@) == Some("BOT_MINE_PREPARE"@),
        reply_tag_of("bot_verify_mine"@) == Some("BOT_MINE_VERIFY"@),
{
    reveal_strlit("bot_attack");
    reveal_strlit("bot_attack_mobs");
    reveal_strlit("bot_approach");
    reveal_strlit("bot_interact");
    reveal_strlit("bot_fight");
    reveal_strlit("bot_sleep");
    reveal_strlit("bot_mine");
    reveal_strlit("bot_collect");
    reveal_strlit("bot_prepare_mine");
    reveal_strlit("bot_verify_mine");
    assert("bot_attack"@.len() == 10 && "bot_approach"@.len() == 12 && "bot_fight"@.len() == 9);
    assert("bot_interact"@.len() == 12 && "bot_sleep"@.len() == 9 && "bot_mine"@.len() == 8);
    assert("bot_collect"@.len() == 11 && "bot_prepare_mine"@.len() == 16);
    assert("bot_attack_mobs"@.len() == 15 && "bot_verify_mine"@.len() == 15);
    assert("bot_attack_mobs"@[4] == 'a' && "bot_verify_mine"@[4] == 'v');
}

/// The commands whose absence on the server is noticed.
pub proof fn known_commands(command: Seq<char>)
    ensures
        reply_tag_of(command) is Some <==> (command == "bot_attack"@ || command == "bot_approach"@ || command == "bot_interact"@ || command == "bot_fight"@ || command == "bot_sleep"@ || command == "bot_mine"@ || command == "bot_collect"@ || command == "bot_chest_inspect"@ || command == "bot_chest_prepare"@ || command == "bot_chest_receipt"@ || command == "bot_chest_cancel"@ || command == "bot_chest_verify"@ || command == "bot_furnace_inspect"@ || command == "bot_furnace_prepare"@ || command == "bot_furnace_receipt"@ || command == "bot_furnace_cancel"@ || command == "bot_craft_prepare"@ || command == "bot_craft_receipt"@ || command == "bot_craft_cancel"@ || command == "bot_place"@ || command == "bot_drop"@ || command == "bot_wield"@ || command == "bot_use"@ || command == "bot_path_node"@ || command == "bot_gather_path"@ || command == "bot_hunt_path"@ || command == "bot_hunt"@ || command == "bot_attack_mobs"@ || command == "bot_prepare_mine"@ || command == "bot_verify_mine"@),
{
}

/// Each order is given by its own word, in any case; those that need a name are none without
/// it.
pub proof fn orders_are_given_by_their_word(word: Seq<char>, arg: Seq<char>)
    requires
        begins(word, "!"@),
    ensures
        lowered(word) == "!stop"@ ==> order_in(word, arg) == Some(ControlView::Stop),
        lowered(word) == "!where"@ ==> order_in(word, arg) == Some(ControlView::Where),
        lowered(word) == "!sleep"@ ==> order_in(word, arg) == Some(
            ControlView::Sleep(radius_arg(arg)),
        ),
        lowered(word) == "!attackmobs"@ ==> order_in(word, arg) == Some(
            ControlView::AttackMobs(radius_arg(arg)),
        ),
        lowered(word) == "!follow"@ ==> order_in(word, arg) == if arg.len() > 0 {
            Some(ControlView::Follow(arg))
        } else {
            None
        },
        lowered(word) == "!tp"@ ==> order_in(word, arg) == if arg.len() > 0 {
            Some(ControlView::Teleport(arg))
        } else {
            None
        },
        lowered(word) == "!attack"@ || lowered(word) == "!attackall"@ ==> order_in(word, arg)
            == if arg.len() > 0 {
            Some(ControlView::Attack(arg))
        } else {
            None
        },
        lowered(word) == "!approach"@ ==> order_in(word, arg) == if arg.len() > 0 {
            Some(ControlView::Approach(arg))
        } else {
            None
        },
        lowered(word) == "!interact"@ ==> order_in(word, arg) == if arg.len() > 0 {
            Some(ControlView::Interact(arg))
        } else {
            None
        },
        lowered(word) == "!fight"@ ==> order_in(word, arg) == if arg.len() > 0 {
            Some(ControlView::Fight(arg))
        } else {
            None
        },
{
    reveal_strlit("!attackmobs");
    assert("!attackmobs"@.len() == 11 && "!attackmobs"@[1] == 'a');
    reveal_strlit("!sleep");
    assert("!sleep"@.len() == 6 && "!sleep"@[1] == 's');
    reveal_strlit("!stop");
    assert("!stop"@.len() == 5 && "!stop"@[1] == 's');
    reveal_strlit("!where");
    assert("!where"@.len() == 6 && "!where"@[1] == 'w');
    reveal_strlit("!follow");
    assert("!follow"@.len() == 7 && "!follow"@[1] == 'f');
    reveal_strlit("!tp");
    assert("!tp"@.len() == 3 && "!tp"@[1] == 't');
    reveal_strlit("!attack");
    assert("!attack"@.len() == 7 && "!attack"@[1] == 'a');
    reveal_strlit("!attackall");
    assert("!attackall"@.len() == 10 && "!attackall"@[1] == 'a');
    reveal_strlit("!approach");
    assert("!approach"@.len() == 9 && "!approach"@[1] == 'a');
    reveal_strlit("!interact");
    assert("!interact"@.len() == 9 && "!interact"@[1] == 'i');
    reveal_strlit("!fight");
    assert("!fight"@.len() == 6 && "!fight"@[1] == 'f');
}

/// A word that does not begin with the mark gives no order.
pub proof fn orders_need_the_mark(word: Seq<char>, arg: Seq<char>)
    requires
        !begins(word, "!"@),
    ensures
        order_in(word, arg) is None,
{
}

/// A message of the server mod is its tag and, behind the first space, its payload, as it was
/// sent.
pub proof fn server_messages_come_apart(tag: Seq<char>, payload: Seq<char>)
    requires
        begins(tag, "BOT_"@),
        forall|i: int| 0 <= i < tag.len() ==> #[trigger] tag[i] != ' ',
    ensures
        protocol_message(tag + " "@ + payload) == Some((tag, payload)),
        protocol_message(tag) == Some((tag, Seq::<char>::empty())),
{
    reveal_strlit(" ");
    assert(" "@ =~= seq![' ']);
    let s = tag + " "@ + payload;
    found_character_is_first(tag, ' ', payload, " "@);
    let n = "BOT_"@.len() as int;
    assert(s.take(n) =~= tag.take(n));
    found_place_is_first(tag, " "@, 0);
    if let Some(at) = find_from(tag, " "@, 0) {
        assert(tag.subrange(at, at + 1)[0] == tag[at]);
        assert(" "@[0] == ' ');
    }
}

/// A message that the server passes on with its sender's name before a colon, or in angle
/// brackets, is that sender's and says what stands behind.
#[verifier::rlimit(50)]
pub proof fn senders_are_told_from_messages(name: Seq<char>, text: Seq<char>)
    requires
        name.len() > 0 && text.len() > 0,
        tight(name) && tight(text),
        forall|i: int| 0 <= i < name.len() ==> #[trigger] name[i] != ':' && name[i] != '>',
        forall|i: int| 0 <= i < text.len() ==> #[trigger] text[i] != ':',
    ensures
        colon_message(name + ":"@ + (" "@ + text)) == Some((name, text)),
        angle_message("<"@ + name + ">"@ + (" "@ + text)) == Some((name, text)),
{
    reveal_strlit(" ");
    reveal_strlit(":");
    reveal_strlit("<");
    reveal_strlit(">");
    assert(" "@ =~= seq![' ']);
    assert(":"@ =~= seq![':']);
    assert("<"@ =~= seq!['<']);
    assert(">"@ =~= seq!['>']);
    let tail = " "@ + text;
    found_character_is_first(name, ':', tail, ":"@);
    assert(all_white(" "@));
    trimming_gives_the_text_back(" "@, text, seq![]);
    assert(" "@ + text + Seq::<char>::empty() =~= tail);
    trimming_gives_the_text_back(seq![], name, seq![]);
    let open = "<"@ + name;
    assert forall|i: int| 0 <= i < open.len() implies #[trigger] open[i] != '>' by {
        if i > 0 {
            assert(open[i] == name[i - 1]);
        }
    }
    found_character_is_first(open, '>', tail, ">"@);
    let s = open + ">"@ + tail;
    assert(s.take(1) =~= "<"@);
    assert(s.subrange(1, open.len() as int) =~= name);
}

/// A message with a sender is the sender's; the name is taken without what is around it.
pub proof fn stated_senders_are_believed(sender: Seq<char>, message: Seq<char>)
    requires
        trimmed(sender).len() > 0,
    ensures
        effective_message(sender, message) == (normalized(sender), trimmed(message)),
{
}

/// A player's name is taken without the white space and without the mark of built-in
/// messages.
pub proof fn names_are_taken_bare(front: Seq<char>, name: Seq<char>, back: Seq<char>)
    requires
        all_white(front),
        all_white(back),
        tight(name),
        name.len() > 0,
        !begins(name, "@__builtin)"@),
    ensures
        normalized(front + name + back) == name,
        normalized("@__builtin)"@ + name) == name,
{
    trimming_gives_the_text_back(front, name, back);
    reveal_strlit("@__builtin)");
    let mark = "@__builtin)"@;
    assert(mark.len() == 11 && mark[0] == '@');
    let marked = mark + name;
    assert(marked.last() == name.last());
    trimming_gives_the_text_back(seq![], marked, seq![]);
    assert(Seq::<char>::empty() + marked + Seq::<char>::empty() =~= marked);
    assert(marked.take(11) =~= mark);
    assert(marked.skip(11) =~= name);
}

/// Whoever joins the game is named in the server's message.
#[verifier::rlimit(50)]
pub proof fn joining_players_are_named(name: Seq<char>)
    requires
        name.len() > 0,
        forall|i: int|
            0 <= i < name.len() ==> !is_white(#[trigger] name[i]) && name[i] != '*' && name[i]
                != '@',
    ensures
        joined_player("*** "@ + name + " joined the game"@) == Some(name),
        joined_player(name) is None,
{
    reveal_strlit("*** ");
    reveal_strlit("***");
    reveal_strlit("@");
    reveal_strlit("@__builtin)");
    reveal_strlit(" joined the game");
    reveal_strlit("joined the game");
    let tail = " joined the game"@;
    let stars = "***"@;
    let s = "*** "@ + name + tail;
    let rest = name + tail;
    assert("*** "@.len() == 4 && stars.len() == 3 && tail.len() == 16);
    assert("joined the game"@.len() == 15);
    assert("@"@.len() == 1 && "@"@[0] == '@');
    assert("@__builtin)"@[0] == '@');
    assert(stars[0] == '*' && "*** "@[0] == '*' && "*** "@[3] == ' ');
    assert(s.last() == tail[15] && tail[15] == 'e');
    assert(s[0] == '*');
    assert(!is_white('*') && !is_white('e') && is_white(' '));
    trimming_gives_the_text_back(seq![], s, seq![]);
    assert("*** "@.take(3) =~= stars);
    assert(s.take(3) =~= stars);
    let behind = seq![' '] + rest;
    assert(s =~= stars + behind);
    assert(behind[0] == ' ');
    assert(!begins(behind, stars)) by {
        if begins(behind, stars) {
            assert(behind.take(3)[0] == behind[0]);
        }
    }
    leading_patterns_are_stripped(stars, behind);
    assert(rest.last() == 'e' && rest[0] == name[0]);
    trimming_gives_the_text_back(seq![' '], rest, seq![]);
    assert(seq![' '] + rest + Seq::<char>::empty() =~= behind);
    joining_is_found(name);
    let n = name.len() as int;
    let head = rest.take(n + 1);
    assert(head =~= Seq::<char>::empty() + name + seq![' ']);
    trimming_gives_the_text_back(seq![], name, seq![' ']);
    assert(!begins(name, "@"@)) by {
        if begins(name, "@"@) {
            assert(name.take(1)[0] == name[0]);
        }
    }
    leading_patterns_are_stripped("@"@, name);
    trimming_gives_the_text_back(seq![], name, seq![]);
    assert(Seq::<char>::empty() + name + Seq::<char>::empty() =~= name);
    assert(!begins(name, "@__builtin)"@)) by {
        if begins(name, "@__builtin)"@) {
            assert(name.take("@__builtin)"@.len() as int)[0] == name[0]);
        }
    }
    assert(!begins(name, stars)) by {
        if begins(name, stars) {
            assert(name.take(3)[0] == name[0]);
        }
    }
}

#[verifier::rlimit(50)]
proof fn joining_is_found(name: Seq<char>)
    requires
        forall|i: int| 0 <= i < name.len() ==> !is_white(#[trigger] name[i]),
    ensures
        find_from(name + " joined the game"@, "joined the game"@, 0) == Some(
            name.len() as int + 1,
        ),
{
    reveal_strlit(" joined the game");
    reveal_strlit("joined the game");
    let tail = " joined the game"@;
    let pat = "joined the game"@;
    let rest = name + tail;
    let n = name.len() as int;
    assert(tail.len() == 16 && pat.len() == 15);
    assert(pat[6] == ' ' && pat[10] == ' ');
    assert(is_white(' '));
    assert(tail.skip(1) =~= pat);
    let k = n + 1;
    assert(rest.subrange(k, k + pat.len()) =~= pat);
    found_place_is_first(rest, pat, 0);
    match find_from(rest, pat, 0) {
        Some(at) => {
            if at < n + 1 {
                let found = rest.subrange(at, at + 15);
                assert(found[6] == rest[at + 6] && found[10] == rest[at + 10]);
                assert(at + 6 >= n) by {
                    if at + 6 < n {
                        assert(rest[at + 6] == name[at + 6]);
                    }
                }
                let i = at + 6 - n;
                assert(0 <= i <= 6);
                assert(rest[at + 6] == tail[i] && rest[at + 10] == tail[i + 4]);
                assert(tail[1] == 'j' && tail[2] == 'o' && tail[3] == 'i' && tail[4] == 'n'
                    && tail[5] == 'e' && tail[6] == 'd');
                assert(i == 0);
                assert(tail[4] == 'n');
            }
        },
        None => {},
    }
}

/// Those on the list, and only those, give orders, under whatever form of their name; an empty
/// list lets everybody.
pub proof fn listed_players_give_orders(
    entries: Seq<Seq<char>>,
    entry: Seq<char>,
    sender: Seq<char>,
)
    ensures
        allowed_names(seq![]) == Seq::<Seq<char>>::empty(),
        trimmed(entry).len() == 0 ==> allowed_names(entries.push(entry)) == allowed_names(entries),
        trimmed(entry).len() > 0 ==> allowed_names(entries.push(entry)) == allowed_names(
            entries,
        ).push(normalized(trimmed(entry))),
        sender_allowed(seq![], sender),
        allowed_names(entries).len() > 0 ==> (sender_allowed(allowed_names(entries), sender)
            <==> allowed_names(entries).contains(normalized(sender))),
{
    assert(entries.push(entry).drop_last() =~= entries);
}

/// The latest messages are kept, up to a limit, each with a number of its own and the next one
/// behind it.
pub proof fn latest_messages_are_kept(
    log: LogView,
    ts_ms: u128,
    sender: Seq<char>,
    message: Seq<char>,
)
    requires
        log.next_id < u64::MAX,
    ensures
        ({
            let after = logged(log, ts_ms, sender, message);
            &&& after.next_id == log.next_id + 1
            &&& after.entries.len() > 0
            &&& after.entries.last() == (EntryView { id: log.next_id, ts_ms, sender, message })
            &&& log.entries.len() < CHAT_HISTORY ==> after.entries.drop_last() == log.entries
            &&& log.entries.len() == CHAT_HISTORY ==> after.entries.drop_last()
                == log.entries.drop_first()
            &&& CHAT_HISTORY == 200
        }),
{
    let after = logged(log, ts_ms, sender, message);
    if log.entries.len() < CHAT_HISTORY {
        assert(after.entries.drop_last() =~= log.entries);
    }
    if log.entries.len() == CHAT_HISTORY {
        assert(after.entries.drop_last() =~= log.entries.drop_first());
    }
}

proof fn newer_entries_are_the_newer_ones(entries: Seq<EntryView>, since: u64, e: EntryView)
    ensures
        newer(entries, since).contains(e) <==> entries.contains(e) && e.id > since,
        newer(entries, since).len() <= entries.len(),
    decreases entries.len(),
{
    let all = newer(entries, since);
    if entries.len() > 0 {
        let fewer = entries.drop_last();
        let before = newer(fewer, since);
        let last = entries.last();
        newer_entries_are_the_newer_ones(fewer, since, e);
        if fewer.contains(e) {
            let i = choose|i: int| 0 <= i < fewer.len() && fewer[i] == e;
            assert(entries[i] == e);
        }
        if entries.contains(e) && !fewer.contains(e) {
            let i = choose|i: int| 0 <= i < entries.len() && entries[i] == e;
            if i < fewer.len() {
                assert(fewer[i] == e);
            }
            assert(e == last);
        }
        assert(entries[entries.len() - 1] == last);
        if last.id > since {
            assert(all == before.push(last));
            assert(all[before.len() as int] == last);
            if before.contains(e) {
                let i = choose|i: int| 0 <= i < before.len() && before[i] == e;
                assert(all[i] == e);
            }
            if all.contains(e) && !before.contains(e) {
                let i = choose|i: int| 0 <= i < all.len() && all[i] == e;
                if i < before.len() {
                    assert(before[i] == e);
                }
                assert(e == last);
            }
        }
    }
}

/// A reader gets every message behind the cursor and no other; where there are more than the limit,
/// as many of the oldest as the limit allows.
pub proof fn readers_get_what_is_new(log: LogView, since: u64, limit: int, e: EntryView)
    requires
        limit >= 1,
    ensures
        collected(log, since, limit).contains(e) ==> log.entries.contains(e) && e.id > since,
        log.entries.len() <= limit && log.entries.contains(e) && e.id > since ==> collected(
            log,
            since,
            limit,
        ).contains(e),
        collected(log, since, limit).len() <= limit,
        newer(log.entries, since).len() > limit ==> collected(log, since, limit) == newer(
            log.entries,
            since,
        ).take(limit),
{
    newer_entries_are_the_newer_ones(log.entries, since, e);
    let all = newer(log.entries, since);
    let got = collected(log, since, limit);
    if got.contains(e) {
        let i = choose|i: int| 0 <= i < got.len() && got[i] == e;
        assert(all[i] == e);
    }
}

/// The chat in JSON is the cursor and the messages in order, each with its number, its time, its
/// sender and its text.
pub proof fn chat_is_reported_in_order(entries: Seq<EntryView>, e: EntryView, last: u64)
    ensures
        chat_json(entries, last) == "{\"last\":"@ + dec(last as int) + ",\"messages\":["@
            + entries_json(entries) + "]}"@,
        entries_json(seq![]) == Seq::<char>::empty(),
        entries_json(seq![e]) == entry_json(e),
        entries.len() > 0 ==> entries_json(entries.push(e)) == entries_json(entries) + ","@
            + entry_json(e),
        entry_json(e) == "{"@ + "\"id\":"@ + dec(e.id as int) + ",\"ts_ms\":"@ + dec(
            e.ts_ms as int,
        ) + ",\"from\":\""@ + escaped(e.sender) + "\",\"msg\":\""@ + escaped(e.message) + "\"}"@,
{
    assert(entries.push(e).drop_last() =~= entries);
}

/// The server's answer to a command that it does not know is passed on as a refusal that names the
/// command.
pub proof fn unknown_commands_are_reported(command: Seq<char>)
    ensures
        bool_member(unsupported_reply(command), "ok"@) == Some(false),
        str_member(unsupported_reply(command), "status"@) == Some("unsupported_command"@),
        str_member(unsupported_reply(command), "command"@) == Some(command),
{
    reveal_strlit("ok");
    reveal_strlit("status");
    reveal_strlit("command");
    assert("ok"@.len() == 2 && "status"@.len() == 6 && "command"@.len() == 7);
}

/// The server rejects a command by naming it, with or without slashes before it, under a sender that
/// says so.
pub proof fn rejected_commands_are_named(sender: Seq<char>, command: Seq<char>)
    requires
        contains_text(sender, "Invalid command"@),
        tight(command),
        command.len() > 0,
        command[0] != '/',
    ensures
        rejects_command(sender, command, command),
        rejects_command(sender, "/"@ + command, command),
        reply_tag_of(command) is Some ==> unsupported_command(sender, "/"@ + command) == Some(
            command,
        ),
        !contains_text(command, "Invalid command"@) ==> unsupported_command(command, command) is None,
{
    reveal_strlit("/");
    assert("/"@ =~= seq!['/']);
    let slashed = "/"@ + command;
    assert(slashed.last() == command.last());
    assert(!is_white('/'));
    trimming_gives_the_text_back(seq![], command, seq![]);
    trimming_gives_the_text_back(seq![], slashed, seq![]);
    assert(!begins(command, "/"@)) by {
        if begins(command, "/"@) {
            assert(command.take(1)[0] == command[0]);
        }
    }
    leading_patterns_are_stripped("/"@, command);
}

/// A message without a sender is that of the player whom it names before a colon.
pub proof fn unsent_messages_name_their_sender(name: Seq<char>, text: Seq<char>)
    requires
        name.len() > 0 && text.len() > 0,
        tight(name) && tight(text),
        forall|i: int| 0 <= i < name.len() ==> #[trigger] name[i] != ':' && name[i] != '>',
        forall|i: int| 0 <= i < text.len() ==> #[trigger] text[i] != ':',
    ensures
        effective_message(seq![], name + ":"@ + (" "@ + text)) == (normalized(name), text),
        name[0] != '<' ==> effective_message(seq![], name) == (Seq::<char>::empty(), name),
{
    reveal_strlit(" ");
    reveal_strlit(":");
    reveal_strlit("<");
    assert(" "@ =~= seq![' ']);
    assert(":"@ =~= seq![':']);
    assert("<"@ =~= seq!['<']);
    senders_are_told_from_messages(name, text);
    let s = name + ":"@ + (" "@ + text);
    assert(s[0] == name[0]);
    assert(s.last() == text.last());
    trimming_gives_the_text_back(seq![], s, seq![]);
    trimming_gives_the_text_back(seq![], name, seq![]);
    trimming_gives_the_text_back(seq![], seq![], seq![]);
    found_place_is_first(name, ":"@, 0);
    if let Some(at) = find_from(name, ":"@, 0) {
        assert(name.subrange(at, at + 1)[0] == name[at]);
        assert(":"@[0] == ':');
    }
    if begins(name, "<"@) {
        assert(name.take(1)[0] == name[0]);
    }
}

/// A radius in an order is a number that fits, in decimal; anything else is none.
pub proof fn radii_are_numbers(n: i32)
    ensures
        radius_arg(dec(n as int)) == Some(n),
        radius_arg(seq![]) is None,
{
    written_numbers_are_read_back(n as int, i32::MIN as int, i32::MAX as int);
}

} // verus!
