//! HTTP requests and replies: the part of the protocol that the interface needs.

use crate::bot::chat::{escape_of, escaped};
use crate::json::{
    bool_member, bool_value, json_text, null_value, parse_value, parsed_json, set_member,
    str_member, str_value, value_text, JsonValue,
};
use crate::scan::{
    after_word, begins, char_views, find, find_from, first_piece_stands_before_the_separator,
    first_word, first_word_ends_at_white_space, found_character_is_first, found_place_is_first,
    is_white, leading_white_space_does_not_count, next_word, pieces, same, split,
    strip_prefix, tight, trim, trim_front, trim_start, trimmed, trimming_gives_the_text_back,
};
use crate::text::{
    copy_range, dec, from_chars, push_dec_unsigned, text_view, to_chars, utf8_lossy,
    utf8_to_string_lossy,
};
use vstd::prelude::*;
use vstd::string::*;
use vstd::utf8::*;

verus! {

/// The value of a hexadecimal digit, given as an ASCII code.
pub open spec fn hex_digit_value(b: u8) -> Option<int> {
    if 0x30 <= b <= 0x39 {
        Some(b - 0x30)
    } else if 0x61 <= b <= 0x66 {
        Some(b - 0x61 + 10)
    } else if 0x41 <= b <= 0x46 {
        Some(b - 0x41 + 10)
    } else {
        None
    }
}

pub fn hex_val(ch: u8) -> (v: Option<u8>)
    ensures
        match v {
            Some(v) => hex_digit_value(ch) == Some(v as int) && v < 16,
            None => hex_digit_value(ch) is None,
        },
{
    if 0x30 <= ch && ch <= 0x39 {
        Some(ch - 0x30)
    } else if 0x61 <= ch && ch <= 0x66 {
        Some(ch - 0x61 + 10)
    } else if 0x41 <= ch && ch <= 0x46 {
        Some(ch - 0x41 + 10)
    } else {
        None
    }
}

/// The character that a percent sign and two hexadecimal digits at the front of `b`
/// stand for.
pub open spec fn percent_char(b: Seq<u8>) -> Option<char> {
    if b.len() >= 3 && b[0] == 0x25 {
        match (hex_digit_value(b[1]), hex_digit_value(b[2])) {
            (Some(h), Some(l)) => Some((16 * h + l) as char),
            _ => None,
        }
    } else {
        None
    }
}

/// A part of a query, decoded byte by byte: `%` before two hexadecimal digits gives
/// the character with that number, `+` a space, any other byte the character with
/// its number.
pub open spec fn url_decoded(b: Seq<u8>) -> Seq<char>
    decreases b.len(),
{
    if b.len() == 0 {
        seq![]
    } else {
        match percent_char(b) {
            Some(c) => seq![c] + url_decoded(b.skip(3)),
            None => seq![
                if b[0] == 0x2b {
                    ' '
                } else {
                    b[0] as char
                },
            ] + url_decoded(b.skip(1)),
        }
    }
}

pub fn url_decode(value: &str) -> (out: String)
    ensures
        out@ == url_decoded(encode_utf8(value@)),
{
    let bytes = value.as_bytes();
    let mut out = String::new();
    let mut i: usize = 0;
    assert(bytes@.skip(0) =~= bytes@);
    assert(out@ + url_decoded(bytes@) =~= url_decoded(bytes@));
    while i < bytes.len()
        invariant
            i <= bytes@.len(),
            out@ + url_decoded(bytes@.skip(i as int)) == url_decoded(bytes@),
        decreases bytes@.len() - i,
    {
        let ghost rest = bytes@.skip(i as int);
        let ghost before = out@;
        let mut step: usize = 1;
        let mut c: char = bytes[i] as char;
        if bytes[i] == 0x2b {
            c = ' ';
        } else if bytes[i] == 0x25 && bytes.len() - i > 2 {
            if let (Some(h), Some(l)) = (hex_val(bytes[i + 1]), hex_val(bytes[i + 2])) {
                c = (16 * h + l) as char;
                step = 3;
            }
        }
        out.push(c);
        proof {
            assert(rest.skip(step as int) =~= bytes@.skip(i + step));
            assert(url_decoded(rest) =~= seq![c] + url_decoded(rest.skip(step as int)));
            assert(out@ + url_decoded(rest.skip(step as int)) =~= before + url_decoded(rest));
        }
        i = i + step;
    }
    assert(bytes@.skip(i as int) =~= Seq::<u8>::empty());
    assert(out@ + Seq::<char>::empty() =~= out@);
    out
}

/// The name and the value that a piece of a query gives.
pub open spec fn query_pair(piece: Seq<char>) -> (Seq<char>, Seq<char>) {
    match find_from(piece, "="@, 0) {
        Some(at) => (
            url_decoded(encode_utf8(piece.take(at))),
            url_decoded(encode_utf8(piece.skip(at + "="@.len()))),
        ),
        None => (url_decoded(encode_utf8(piece)), seq![]),
    }
}

/// The names and values of a query, in order; empty pieces give none.
pub open spec fn query_pairs(pieces: Seq<Seq<char>>) -> Seq<(Seq<char>, Seq<char>)>
    decreases pieces.len(),
{
    if pieces.len() == 0 {
        seq![]
    } else {
        let before = query_pairs(pieces.drop_last());
        if pieces.last().len() == 0 {
            before
        } else {
            before.push(query_pair(pieces.last()))
        }
    }
}

/// The value of a parameter: where a name is given more than once, the last one.
pub open spec fn param_of(params: Seq<(Seq<char>, Seq<char>)>, name: Seq<char>) -> Option<
    Seq<char>,
>
    decreases params.len(),
{
    if params.len() == 0 {
        None
    } else if params.last().0 == name {
        Some(params.last().1)
    } else {
        param_of(params.drop_last(), name)
    }
}

pub open spec fn pair_views(params: Seq<(String, String)>) -> Seq<(Seq<char>, Seq<char>)> {
    params.map_values(|p: (String, String)| (p.0@, p.1@))
}

fn read_pair(piece: &[char]) -> (pair: (String, String))
    ensures
        (pair.0@, pair.1@) == query_pair(piece@),
{
    match find(piece, "=") {
        Some(at) => {
            proof {
                reveal_strlit("=");
                assert("="@.len() == 1);
                assert(at + 1 <= piece.len());
                assert(piece@.subrange(0, at as int) =~= piece@.take(at as int));
                assert(piece@.subrange(at + 1, piece@.len() as int) =~= piece@.skip(at + 1));
            }
            let name = from_chars(&piece[0..at]);
            let value = from_chars(&piece[at + 1..piece.len()]);
            (url_decode(name.as_str()), url_decode(value.as_str()))
        },
        None => (url_decode(from_chars(piece).as_str()), String::new()),
    }
}

/// Reads the parameters of a query.
pub fn parse_query(query: &str) -> (params: Vec<(String, String)>)
    ensures
        pair_views(params@) == query_pairs(pieces(query@, '&')),
{
    let chars: Vec<char> = to_chars(query);
    let parts: Vec<Vec<char>> = split(chars.as_slice(), '&');
    let ghost all = char_views(parts@);
    let mut params: Vec<(String, String)> = Vec::new();
    let mut i: usize = 0;
    assert(pair_views(params@) =~= query_pairs(all.take(0)));
    while i < parts.len()
        invariant
            i <= parts.len(),
            all == char_views(parts@),
            pair_views(params@) == query_pairs(all.take(i as int)),
        decreases parts.len() - i,
    {
        let ghost before = pair_views(params@);
        proof {
            assert(all.take(i + 1).drop_last() =~= all.take(i as int));
            assert(all.take(i + 1).last() == parts@[i as int]@);
        }
        if parts[i].len() > 0 {
            let pair = read_pair(parts[i].as_slice());
            params.push(pair);
            assert(pair_views(params@) =~= before.push((pair.0@, pair.1@)));
        }
        i = i + 1;
    }
    assert(all.take(i as int) =~= all);
    params
}

/// The value of a parameter.
pub fn param<'a>(params: &'a Vec<(String, String)>, name: &str) -> (value: Option<&'a str>)
    ensures
        match value {
            Some(v) => param_of(pair_views(params@), name@) == Some(v@),
            None => param_of(pair_views(params@), name@) is None,
        },
{
    let wanted = name.to_owned();
    let ghost all = pair_views(params@);
    let mut n: usize = params.len();
    assert(all.take(n as int) =~= all);
    while n > 0
        invariant
            n <= params.len(),
            wanted@ == name@,
            all == pair_views(params@),
            param_of(all.take(n as int), name@) == param_of(all, name@),
        decreases n,
    {
        proof {
            assert(all.take(n as int).drop_last() =~= all.take(n - 1));
            assert(all.take(n as int).last() == (params@[n - 1].0@, params@[n - 1].1@));
        }
        if params[n - 1].0 == wanted {
            return Some(params[n - 1].1.as_str());
        }
        n = n - 1;
    }
    None
}

/// The JSON value in a body, if there is one.
pub open spec fn body_json(body: Seq<char>) -> Option<JsonValue> {
    let t = trimmed(body);
    if t.len() == 0 {
        None
    } else {
        match parsed_json(t) {
            Ok(v) => Some(v),
            Err(_) => None,
        }
    }
}

pub fn parse_json_value(body: &str) -> (value: Option<serde_json::Value>)
    ensures
        match value {
            Some(v) => body_json(body@) == Some(crate::json::json_value(v)),
            None => body_json(body@) is None,
        },
{
    let chars: Vec<char> = to_chars(body);
    let t: &[char] = trim(chars.as_slice());
    if t.len() == 0 {
        return None;
    }
    parse_value(from_chars(t).as_str()).ok()
}

pub open spec fn ok_json() -> JsonValue {
    JsonValue::Object(Map::empty().insert("ok"@, JsonValue::Bool(true)))
}

pub open spec fn error_json(message: Seq<char>) -> JsonValue {
    JsonValue::Object(
        Map::empty().insert("ok"@, JsonValue::Bool(false)).insert(
            "error"@,
            JsonValue::Str(message),
        ),
    )
}

pub fn json_ok() -> (text: String)
    ensures
        text@ == json_text(ok_json()),
{
    let mut reply = null_value();
    set_member(&mut reply, "ok", bool_value(true));
    value_text(&reply)
}

pub fn json_error(message: &str) -> (text: String)
    ensures
        text@ == json_text(error_json(message@)),
{
    let mut reply = null_value();
    set_member(&mut reply, "ok", bool_value(false));
    set_member(&mut reply, "error", str_value(message));
    value_text(&reply)
}

/// A reply with a body.
pub open spec fn reply_text(status: Seq<char>, kind: Seq<char>, body: Seq<char>) -> Seq<char> {
    "HTTP/1.1 "@ + status + "\r\nContent-Type: "@ + kind + "\r\nContent-Length: "@ + dec(
        encode_utf8(body).len() as int,
    ) + "\r\n\r\n"@ + body
}

pub fn write_reply(status: &str, kind: &str, body: &str) -> (reply: String)
    ensures
        reply@ == reply_text(status@, kind@, body@),
{
    let mut reply = "HTTP/1.1 ".to_owned();
    reply.append(status);
    reply.append("\r\nContent-Type: ");
    reply.append(kind);
    reply.append("\r\nContent-Length: ");
    push_dec_unsigned(&mut reply, body.as_bytes().len() as u128);
    reply.append("\r\n\r\n");
    reply.append(body);
    reply
}

/// The reply that reports an error in JSON.
pub open spec fn json_error_reply(status: Seq<char>, message: Seq<char>) -> Seq<char> {
    reply_text(status, "application/json"@, json_text(error_json(message)))
}

pub fn write_json_error(status: &str, message: &str) -> (reply: String)
    ensures
        reply@ == json_error_reply(status@, message@),
{
    write_reply(status, "application/json", json_error(message).as_str())
}

/// The character that stands for `c` behind a backslash.
pub open spec fn unescaped(c: char) -> char {
    if c == 'n' {
        '\n'
    } else if c == 'r' {
        '\r'
    } else if c == 't' {
        '\t'
    } else {
        c
    }
}

/// The text up to the closing quote, which has to come.
pub open spec fn quoted_text(s: Seq<char>) -> Option<Seq<char>>
    decreases s.len(),
{
    if s.len() == 0 {
        None
    } else if s[0] == '"' {
        Some(seq![])
    } else if s[0] == '\\' {
        if s.len() == 1 {
            None
        } else {
            match quoted_text(s.skip(2)) {
                Some(rest) => Some(seq![unescaped(s[1])] + rest),
                None => None,
            }
        }
    } else {
        match quoted_text(s.skip(1)) {
            Some(rest) => Some(seq![s[0]] + rest),
            None => None,
        }
    }
}

/// The text behind the first mention of a name in quotes and the first colon behind
/// that, if it is in quotes.
pub open spec fn json_field(body: Seq<char>, key: Seq<char>) -> Option<Seq<char>> {
    let pattern = "\""@ + key + "\""@;
    match find_from(body, pattern, 0) {
        Some(at) => {
            let rest = body.skip(at + pattern.len());
            match find_from(rest, ":"@, 0) {
                Some(colon) => {
                    let value = trim_front(rest.skip(colon + ":"@.len()));
                    if begins(value, "\""@) {
                        quoted_text(value.skip("\""@.len() as int))
                    } else {
                        None
                    }
                },
                None => None,
            }
        },
        None => None,
    }
}

proof fn quoted_step(s: Seq<char>, i: int, step: int, out: Seq<char>, c: char)
    requires
        0 <= i,
        i + step <= s.len(),
        step == 1 || step == 2,
        s[i] != '"',
        step == 1 ==> s[i] != '\\' && c == s[i],
        step == 2 ==> s[i] == '\\' && c == unescaped(s[i + 1]),
    ensures
        match (quoted_text(s.skip(i)), quoted_text(s.skip(i + step))) {
            (Some(t), Some(r)) => out + t == out.push(c) + r,
            (None, None) => true,
            _ => false,
        },
{
    let rest = s.skip(i);
    assert(rest.skip(step) =~= s.skip(i + step));
    match quoted_text(s.skip(i + step)) {
        Some(r) => {
            assert(out + (seq![c] + r) =~= out.push(c) + r);
        },
        None => {},
    }
}

/// What the rest of a quoted text adds to what was read of it.
pub open spec fn with_rest(out: Seq<char>, rest: Option<Seq<char>>) -> Option<Seq<char>> {
    match rest {
        Some(r) => Some(out + r),
        None => None,
    }
}

fn read_quoted(s: &[char]) -> (text: Option<String>)
    ensures
        text_view(text) == quoted_text(s@),
{
    let mut out = String::new();
    let mut i: usize = 0;
    proof {
        assert(s@.skip(0) =~= s@);
        match quoted_text(s@) {
            Some(r) => {
                assert(out@ + r =~= r);
            },
            None => {},
        }
    }
    while i < s.len()
        invariant
            i <= s.len(),
            with_rest(out@, quoted_text(s@.skip(i as int))) == quoted_text(s@),
        decreases s.len() - i,
    {
        let c: char = s[i];
        if c == '"' {
            assert(out@ + Seq::<char>::empty() =~= out@);
            return Some(out);
        }
        if c == '\\' {
            if i + 1 == s.len() {
                return None;
            }
            let next: char = s[i + 1];
            let plain: char = if next == 'n' {
                '\n'
            } else if next == 'r' {
                '\r'
            } else if next == 't' {
                '\t'
            } else {
                next
            };
            proof {
                quoted_step(s@, i as int, 2, out@, plain);
            }
            out.push(plain);
            i = i + 2;
        } else {
            proof {
                quoted_step(s@, i as int, 1, out@, c);
            }
            out.push(c);
            i = i + 1;
        }
    }
    None
}

/// Reads one text of a body that looks like JSON.
pub fn parse_json_field(body: &str, key: &str) -> (value: Option<String>)
    ensures
        text_view(value) == json_field(body@, key@),
{
    let chars: Vec<char> = to_chars(body);
    let s: &[char] = chars.as_slice();
    let mut pattern = "\"".to_owned();
    pattern.append(key);
    pattern.append("\"");
    let at: usize = find(s, pattern.as_str())?;
    let len: usize = to_chars(pattern.as_str()).len();
    assert(at + len <= s.len());
    let rest: &[char] = &s[at + len..s.len()];
    assert(rest@ =~= body@.skip(at + len));
    proof {
        reveal_strlit(":");
        assert(":"@.len() == 1);
        reveal_strlit("\"");
        assert("\""@.len() == 1);
    }
    let colon: usize = find(rest, ":")?;
    assert(colon + 1 <= rest.len());
    let behind: &[char] = &rest[colon + 1..rest.len()];
    assert(behind@ =~= rest@.skip(colon + 1));
    let quoted: &[char] = strip_prefix(trim_start(behind), "\"")?;
    read_quoted(quoted)
}

/// A request.
#[derive(Debug)]
pub struct Request {
    pub method: String,
    pub endpoint: String,
    pub params: Vec<(String, String)>,
    pub body: String,
    /// The request shows the token, or none is needed.
    pub authorized: bool,
}

/// The value of a [`Request`].
pub ghost struct RequestView {
    pub method: Seq<char>,
    pub endpoint: Seq<char>,
    pub params: Seq<(Seq<char>, Seq<char>)>,
    pub body: Seq<char>,
    pub authorized: bool,
}

impl View for Request {
    type V = RequestView;

    open spec fn view(&self) -> RequestView {
        RequestView {
            method: self.method@,
            endpoint: self.endpoint@,
            params: pair_views(self.params@),
            body: self.body@,
            authorized: self.authorized,
        }
    }
}

/// A line without the carriage return at its end.
pub open spec fn without_return(line: Seq<char>) -> Seq<char> {
    if line.len() > 0 && line.last() == '\r' {
        line.drop_last()
    } else {
        line
    }
}

/// A header line shows the token.
pub open spec fn shows_token(line: Seq<char>, token: Seq<char>) -> bool {
    let name = "Authorization: Bearer "@;
    begins(line, name) && trimmed(line.skip(name.len() as int)) == token
}

/// One of the lines up to the first blank one shows the token.
pub open spec fn token_in(lines: Seq<Seq<char>>, token: Seq<char>) -> bool
    decreases lines.len(),
{
    let line = without_return(lines[0]);
    if lines.len() == 0 || trimmed(line).len() == 0 {
        false
    } else {
        shows_token(line, token) || token_in(lines.drop_first(), token)
    }
}

/// A path up to the question mark.
pub open spec fn path_of(target: Seq<char>) -> Seq<char> {
    match find_from(target, "?"@, 0) {
        Some(at) => target.take(at),
        None => target,
    }
}

/// What stands behind the question mark.
pub open spec fn query_of(target: Seq<char>) -> Seq<char> {
    match find_from(target, "?"@, 0) {
        Some(at) => target.skip(at + "?"@.len()),
        None => seq![],
    }
}

/// The blank line that ends the head of a request.
pub open spec fn head_end() -> Seq<char> {
    "\r\n\r\n"@
}

/// Where the body of a request begins, if its head is complete: behind as many bytes
/// as the head takes in UTF-8.
pub open spec fn body_start(data: Seq<u8>) -> Option<int> {
    let text = utf8_lossy(data);
    match find_from(text, head_end(), 0) {
        Some(at) => Some((encode_utf8(text.take(at)).len() + head_end().len()) as int),
        None => None,
    }
}

/// The request in `data`, whose body begins at `start`.
pub open spec fn request_in(data: Seq<u8>, start: int, token: Seq<char>) -> RequestView {
    let lines = pieces(utf8_lossy(data), '\n');
    let first = without_return(lines[0]);
    let target = first_word(after_word(first));
    RequestView {
        method: first_word(first),
        endpoint: path_of(target),
        params: query_pairs(pieces(query_of(target), '&')),
        body: utf8_lossy(data.skip(start)),
        authorized: token.len() == 0 || token_in(lines.skip(1), token),
    }
}

/// The head of a request is not UTF-8, and repaired it is longer than the request.
#[derive(Clone, Copy, Debug, PartialEq, Eq, Structural)]
pub struct HeadTooLong;

fn strip_return(line: &[char]) -> (r: &[char])
    ensures
        r@ == without_return(line@),
{
    let n: usize = line.len();
    if n > 0 && line[n - 1] == '\r' {
        let r: &[char] = &line[0..n - 1];
        assert(r@ =~= line@.drop_last());
        r
    } else {
        line
    }
}

fn has_token(lines: &Vec<Vec<char>>, token: &str) -> (found: bool)
    requires
        lines@.len() >= 1,
    ensures
        found == token_in(char_views(lines@).skip(1), token@),
{
    let ghost all = char_views(lines@);
    let mut i: usize = 1;
    while i < lines.len()
        invariant
            1 <= i <= lines.len(),
            all == char_views(lines@),
            token_in(all.skip(1), token@) == token_in(all.skip(i as int), token@),
        decreases lines.len() - i,
    {
        let line: &[char] = strip_return(lines[i].as_slice());
        proof {
            assert(all.skip(i as int)[0] == lines@[i as int]@);
            assert(all.skip(i as int).drop_first() =~= all.skip(i + 1));
        }
        if trim(line).len() == 0 {
            return false;
        }
        if let Some(rest) = strip_prefix(line, "Authorization: Bearer ") {
            if same(trim(rest), token) {
                return true;
            }
        }
        i = i + 1;
    }
    false
}

fn split_target(target: &[char]) -> (parts: (String, String))
    ensures
        parts.0@ == path_of(target@),
        parts.1@ == query_of(target@),
{
    match find(target, "?") {
        Some(at) => {
            proof {
                reveal_strlit("?");
                assert("?"@.len() == 1);
                assert(at + 1 <= target.len());
                assert(target@.subrange(0, at as int) =~= target@.take(at as int));
                assert(target@.subrange(at + 1, target@.len() as int) =~= target@.skip(at + 1));
            }
            (from_chars(&target[0..at]), from_chars(&target[at + 1..target.len()]))
        },
        None => (from_chars(target), String::new()),
    }
}

/// Reads a request. Nothing comes of one whose head is not complete.
pub fn read_request(data: &[u8], token: &str) -> (r: Result<Option<Request>, HeadTooLong>)
    ensures
        match body_start(data@) {
            None => r == Ok::<Option<Request>, HeadTooLong>(None),
            Some(start) => if start > data@.len() {
                r is Err
            } else {
                r is Ok && r->Ok_0 is Some && r->Ok_0->0@ == request_in(data@, start, token@)
            },
        },
{
    let text = utf8_to_string_lossy(data);
    let chars: Vec<char> = to_chars(text.as_str());
    let s: &[char] = chars.as_slice();
    proof {
        reveal_strlit("\r\n\r\n");
        assert("\r\n\r\n"@.len() == 4);
    }
    let at: usize = match find(s, "\r\n\r\n") {
        Some(at) => at,
        None => return Ok(None),
    };
    let head = from_chars(&s[0..at]);
    assert(head@ =~= text@.take(at as int));
    let head_len: usize = head.as_str().as_bytes().len();
    if head_len > data.len() || data.len() - head_len < 4 {
        return Err(HeadTooLong);
    }
    let start: usize = head_len + 4;
    let body_bytes: Vec<u8> = copy_range(data, start, data.len());
    assert(body_bytes@ =~= data@.skip(start as int));
    let body = utf8_to_string_lossy(body_bytes.as_slice());
    let lines: Vec<Vec<char>> = split(s, '\n');
    assert(char_views(lines@)[0] == lines@[0]@);
    let first: &[char] = strip_return(lines[0].as_slice());
    let (method, rest) = next_word(first);
    let (target, _) = next_word(rest);
    let (endpoint, query) = split_target(target);
    let authorized = token.is_empty() || has_token(&lines, token);
    Ok(
        Some(
            Request {
                method: from_chars(method),
                endpoint,
                params: parse_query(query.as_str()),
                body,
                authorized,
            },
        ),
    )
}

/// A request is let in without a token only where none is needed.
pub proof fn requests_need_the_token(data: Seq<u8>, start: int, token: Seq<char>)
    requires
        token.len() > 0,
        request_in(data, start, token).authorized,
    ensures
        exists|i: int|
            1 <= i < pieces(utf8_lossy(data), '\n').len() && shows_token(
                without_return(#[trigger] pieces(utf8_lossy(data), '\n')[i]),
                token,
            ),
{
    let lines = pieces(utf8_lossy(data), '\n');
    token_is_on_a_line(lines.skip(1), token);
    let i = choose|i: int|
        0 <= i < lines.skip(1).len() && shows_token(
            without_return(#[trigger] lines.skip(1)[i]),
            token,
        );
    assert(lines[i + 1] == lines.skip(1)[i]);
}

proof fn token_is_on_a_line(lines: Seq<Seq<char>>, token: Seq<char>)
    requires
        token_in(lines, token),
    ensures
        exists|i: int|
            0 <= i < lines.len() && shows_token(without_return(#[trigger] lines[i]), token),
    decreases lines.len(),
{
    if !shows_token(without_return(lines[0]), token) {
        token_is_on_a_line(lines.drop_first(), token);
        let i = choose|i: int|
            0 <= i < lines.drop_first().len() && shows_token(
                without_return(#[trigger] lines.drop_first()[i]),
                token,
            );
        assert(lines[i + 1] == lines.drop_first()[i]);
    }
}

/// A byte that is written with a percent sign and two hexadecimal digits is read as the character
/// with that number, a plus sign as a space, and every other byte as itself.
pub proof fn escaped_bytes_are_decoded(h: u8, l: u8, b: u8, rest: Seq<u8>)
    requires
        hex_digit_value(h) is Some,
        hex_digit_value(l) is Some,
    ensures
        url_decoded(seq![0x25u8, h, l] + rest) == seq![
            (16 * hex_digit_value(h)->0 + hex_digit_value(l)->0) as char,
        ] + url_decoded(rest),
        url_decoded(seq![0x2bu8] + rest) == seq![' '] + url_decoded(rest),
        b != 0x25 && b != 0x2b ==> url_decoded(seq![b] + rest) == seq![b as char] + url_decoded(
            rest,
        ),
        url_decoded(seq![]) == Seq::<char>::empty(),
{
    let p = seq![0x25u8, h, l] + rest;
    assert(p[0] == 0x25 && p[1] == h && p[2] == l);
    assert(p.skip(3) =~= rest);
    let q = seq![0x2bu8] + rest;
    assert(q[0] == 0x2b);
    assert(q.skip(1) =~= rest);
    let r = seq![b] + rest;
    assert(r[0] == b);
    assert(r.skip(1) =~= rest);
}

/// Hexadecimal digits are read in either case.
pub proof fn hexadecimal_digits_have_their_value(d: u8)
    ensures
        d < 10 ==> hex_digit_value((0x30 + d) as u8) == Some(d as int),
        10 <= d < 16 ==> hex_digit_value((0x61 + d - 10) as u8) == Some(d as int),
        10 <= d < 16 ==> hex_digit_value((0x41 + d - 10) as u8) == Some(d as int),
        hex_digit_value(d) is Some ==> 0 <= hex_digit_value(d)->0 < 16,
        d < 0x30 || 0x39 < d < 0x41 || 0x46 < d < 0x61 || d > 0x66 ==> hex_digit_value(d) is None,
{
}

/// A parameter's name stands before the first equals sign, its value behind it; pieces come in
/// order, and empty ones are none.
pub proof fn parameters_are_names_and_values(
    name: Seq<char>,
    value: Seq<char>,
    pieces: Seq<Seq<char>>,
)
    requires
        forall|i: int| 0 <= i < name.len() ==> #[trigger] name[i] != '=',
    ensures
        query_pair(name + "="@ + value) == (
            url_decoded(encode_utf8(name)),
            url_decoded(encode_utf8(value)),
        ),
        query_pairs(pieces.push(name + "="@ + value)) == query_pairs(pieces).push(
            query_pair(name + "="@ + value),
        ),
        query_pairs(pieces.push(seq![])) == query_pairs(pieces),
        query_pairs(seq![]) == Seq::<(Seq<char>, Seq<char>)>::empty(),
{
    reveal_strlit("=");
    assert("="@ =~= seq!['=']);
    found_character_is_first(name, '=', value, "="@);
    assert(pieces.push(name + "="@ + value).drop_last() =~= pieces);
    assert(pieces.push(seq![]).drop_last() =~= pieces);
}

/// The last value that a parameter is given counts.
pub proof fn last_value_counts(
    params: Seq<(Seq<char>, Seq<char>)>,
    name: Seq<char>,
    value: Seq<char>,
    other: Seq<char>,
)
    requires
        other != name,
    ensures
        param_of(params.push((name, value)), name) == Some(value),
        param_of(params.push((name, value)), other) == param_of(params, other),
        param_of(seq![], name) is None,
{
    assert(params.push((name, value)).drop_last() =~= params);
}

/// A reply states its status, the type of its body, and the body's length in bytes, and then
/// comes the body.
pub proof fn replies_state_their_length(status: Seq<char>, kind: Seq<char>, body: Seq<char>)
    ensures
        reply_text(status, kind, body) == "HTTP/1.1 "@ + status + "\r\nContent-Type: "@ + kind
            + "\r\nContent-Length: "@ + dec(encode_utf8(body).len() as int) + "\r\n\r\n"@ + body,
        json_error_reply(status, body) == reply_text(
            status,
            "application/json"@,
            json_text(error_json(body)),
        ),
{
}

/// What is answered in JSON says whether the request succeeded, and what was wrong.
pub proof fn answers_say_how_it_went(message: Seq<char>)
    ensures
        bool_member(ok_json(), "ok"@) == Some(true),
        bool_member(error_json(message), "ok"@) == Some(false),
        str_member(error_json(message), "error"@) == Some(message),
{
    reveal_strlit("ok");
    reveal_strlit("error");
    assert("ok"@.len() == 2 && "error"@.len() == 5);
}

/// A text in quotes is read back as it was before it was escaped.
#[verifier::rlimit(50)]
pub proof fn quoted_texts_are_read_back(s: Seq<char>, rest: Seq<char>)
    requires
        forall|i: int|
            0 <= i < s.len() ==> #[trigger] s[i] > '\u{1f}' || s[i] == '\n' || s[i] == '\r' || s[i]
                == '\t',
    ensures
        quoted_text(escaped(s) + (seq!['"'] + rest)) == Some(s),
    decreases s.len(),
{
    let tail = seq!['"'] + rest;
    if s.len() == 0 {
        assert(escaped(s) + tail =~= tail);
        assert(tail[0] == '"');
        assert(s =~= seq![]);
    } else {
        let c = s[0];
        let more = s.drop_first();
        assert forall|i: int| 0 <= i < more.len() implies #[trigger] more[i] > '\u{1f}' || more[i]
            == '\n' || more[i] == '\r' || more[i] == '\t' by {
            assert(more[i] == s[i + 1]);
        }
        quoted_texts_are_read_back(more, rest);
        escaped_from_the_front(s);
        let e = escape_of(c);
        let all = escaped(s) + tail;
        assert(all =~= e + (escaped(more) + tail));
        assert(all[0] == e[0]);
        if e.len() == 2 {
            assert(all[1] == e[1]);
            assert(all.skip(2) =~= escaped(more) + tail);
        } else {
            assert(all.skip(1) =~= escaped(more) + tail);
        }
        assert(seq![c] + more =~= s);
    }
}

proof fn escaped_from_the_front(s: Seq<char>)
    requires
        s.len() > 0,
    ensures
        escaped(s) == escape_of(s[0]) + escaped(s.drop_first()),
    decreases s.len(),
{
    if s.len() == 1 {
        assert(s.drop_last() =~= seq![]);
        assert(s.drop_first() =~= seq![]);
        assert(escaped(s.drop_last()) =~= seq![]);
        assert(escaped(s) =~= escape_of(s[0]));
        assert(escape_of(s[0]) + escaped(s.drop_first()) =~= escape_of(s[0]));
    } else {
        escaped_from_the_front(s.drop_last());
        assert(s.drop_last().drop_first() =~= s.drop_first().drop_last());
        assert(s.drop_first().last() == s.last());
        assert(s.drop_last()[0] == s[0]);
        let inner = s.drop_first().drop_last();
        assert(escape_of(s[0]) + escaped(inner) + escape_of(s.last()) =~= escape_of(s[0]) + (
        escaped(inner) + escape_of(s.last())));
    }
}

/// A target is its path, then a question mark, then its query.
pub proof fn targets_come_apart(path: Seq<char>, query: Seq<char>)
    requires
        forall|i: int| 0 <= i < path.len() ==> #[trigger] path[i] != '?',
    ensures
        path_of(path + "?"@ + query) == path,
        query_of(path + "?"@ + query) == query,
        path_of(path) == path,
        query_of(path) == Seq::<char>::empty(),
{
    reveal_strlit("?");
    assert("?"@ =~= seq!['?']);
    found_character_is_first(path, '?', query, "?"@);
    found_place_is_first(path, "?"@, 0);
    if let Some(at) = find_from(path, "?"@, 0) {
        assert(path.subrange(at, at + 1)[0] == path[at]);
        assert("?"@[0] == '?');
    }
}

/// The token is shown by any header line before the blank one that names it, and by none
/// behind it.
#[verifier::rlimit(50)]
pub proof fn headers_show_the_token(
    before: Seq<char>,
    lines: Seq<Seq<char>>,
    token: Seq<char>,
)
    requires
        tight(token),
    ensures
        token.len() > 0 ==> token_in(
            seq!["Authorization: Bearer "@ + token + "\r"@] + lines,
            token,
        ),
        trimmed(without_return(before)).len() > 0 && !shows_token(without_return(before), token)
            ==> token_in(seq![before] + lines, token) == token_in(lines, token),
        trimmed(without_return(before)).len() == 0 ==> !token_in(seq![before] + lines, token),
{
    reveal_strlit("Authorization: Bearer ");
    reveal_strlit("\r");
    let name = "Authorization: Bearer "@;
    assert(name.len() == 22 && name[0] == 'A');
    assert("\r"@ =~= seq!['\r']);
    let shown = name + token;
    let line = name + token + "\r"@;
    assert(line.last() == '\r');
    assert(without_return(line) =~= shown);
    assert(shown.take(22) =~= name);
    assert(shown.skip(22) =~= token);
    trimming_gives_the_text_back(seq![], token, seq![]);
    if token.len() > 0 {
        assert(shown.last() == token.last());
        trimming_gives_the_text_back(seq![], shown, seq![]);
        let all = seq![line] + lines;
        assert(all[0] == line);
    }
    let all = seq![before] + lines;
    assert(all[0] == before);
    assert(all.drop_first() =~= lines);
}

/// A request's first line is its method, its target and more; the body is what stands behind
/// the head.
#[verifier::rlimit(50)]
pub proof fn requests_come_apart(
    data: Seq<u8>,
    start: int,
    token: Seq<char>,
    method: Seq<char>,
    target: Seq<char>,
    version: Seq<char>,
    more: Seq<char>,
)
    requires
        method.len() > 0,
        target.len() > 0,
        forall|i: int| 0 <= i < method.len() ==> !is_white(#[trigger] method[i]),
        forall|i: int| 0 <= i < target.len() ==> !is_white(#[trigger] target[i]),
        forall|i: int| 0 <= i < version.len() ==> !is_white(#[trigger] version[i]),
        utf8_lossy(data) == method + seq![' '] + (target + seq![' '] + (version + seq!['\r']))
            + seq!['\n'] + more,
    ensures
        ({
            let r = request_in(data, start, token);
            &&& r.method == method
            &&& r.endpoint == path_of(target)
            &&& r.params == query_pairs(pieces(query_of(target), '&'))
            &&& r.body == utf8_lossy(data.skip(start))
            &&& token.len() == 0 ==> r.authorized
        }),
{
    let tail = target + seq![' '] + version;
    let first = method + seq![' '] + tail;
    let line = method + seq![' '] + (target + seq![' '] + (version + seq!['\r']));
    assert(is_white(' ') && is_white('\r') && is_white('\n'));
    assert forall|i: int| 0 <= i < line.len() implies #[trigger] line[i] != '\n' by {
        let m = method.len() as int;
        let t = target.len() as int;
        if i < m {
            assert(line[i] == method[i]);
        } else if m < i < m + 1 + t {
            assert(line[i] == target[i - m - 1]);
        } else if m + t + 2 <= i < line.len() - 1 {
            assert(line[i] == version[i - m - t - 2]);
        }
    }
    first_piece_stands_before_the_separator(line, '\n', more);
    assert(line.last() == '\r');
    assert(line.drop_last() =~= first);
    first_word_ends_at_white_space(method, ' ', tail);
    leading_white_space_does_not_count(' ', tail);
    first_word_ends_at_white_space(target, ' ', version);
}

/// A text that a body names is read back: behind its name in quotes and a colon, in quotes itself.
#[verifier::rlimit(50)]
pub proof fn named_texts_are_read_back(key: Seq<char>, value: Seq<char>, rest: Seq<char>)
    requires
        forall|i: int|
            0 <= i < value.len() ==> #[trigger] value[i] > '\u{1f}' || value[i] == '\n' || value[i]
                == '\r' || value[i] == '\t',
    ensures
        json_field(
            "{"@ + ("\""@ + key + "\""@) + (":"@ + ("\""@ + (escaped(value) + (seq!['"'] + rest)))),
            key,
        ) == Some(value),
{
    reveal_strlit("{");
    reveal_strlit(":");
    reveal_strlit("\"");
    assert("{"@ =~= seq!['{']);
    assert(":"@ =~= seq![':']);
    assert("\""@ =~= seq!['"']);
    let pattern = "\""@ + key + "\""@;
    let quoted = escaped(value) + (seq!['"'] + rest);
    let text = "\""@ + quoted;
    let tail = ":"@ + text;
    let body = "{"@ + pattern + tail;
    let n = pattern.len() as int;
    assert(pattern[0] == '"');
    found_place_is_first(body, pattern, 0);
    let k = 1int;
    assert(body.subrange(k, k + pattern.len()) =~= pattern);
    match find_from(body, pattern, 0) {
        Some(at) => {
            if at == 0 {
                assert(body.subrange(0, pattern.len() as int)[0] == body[0]);
                assert(body[0] == '{');
            }
            assert(at == 1);
        },
        None => {},
    }
    assert(body.skip(1 + n) =~= tail);
    found_character_is_first(seq![], ':', text, ":"@);
    assert(Seq::<char>::empty() + ":"@ + text =~= tail);
    assert(tail.skip(1) =~= text);
    assert(text[0] == '"' && !is_white('"'));
    assert(text.take(1) =~= "\""@);
    assert(text.skip(1) =~= quoted);
    quoted_texts_are_read_back(value, rest);
}

/// The body begins behind the first blank line, so many bytes into the request as the head takes.
pub proof fn bodies_begin_behind_the_head(data: Seq<u8>, head: Seq<char>, body: Seq<char>)
    requires
        utf8_lossy(data) == head + "\r\n\r\n"@ + body,
        find_from(head + "\r\n\r\n"@, "\r\n\r\n"@, 0) == Some(head.len() as int),
    ensures
        body_start(data) == Some(encode_utf8(head).len() as int + 4),
{
    reveal_strlit("\r\n\r\n");
    let end = "\r\n\r\n"@;
    assert(end.len() == 4);
    let text = head + end + body;
    let n = head.len() as int;
    found_place_is_first(text, end, 0);
    found_place_is_first(head + end, end, 0);
    assert(text.subrange(n, n + end.len()) =~= end);
    match find_from(text, end, 0) {
        Some(at) => {
            if at < n {
                assert(text.subrange(at, at + end.len()) =~= (head + end).subrange(
                    at,
                    at + end.len(),
                ));
            }
        },
        None => {},
    }
    assert(text.take(n) =~= head);
}

} // verus!
