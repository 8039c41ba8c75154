//! Validation shared by the HTTP boundary and native bot tasks.

use crate::json::{
    array_of, get_str, i64_member, i64_of, ints3, json_value, json_values, member, member_of,
    str_member, str_member_is, JsonValue,
};
use crate::scan::{char_is_control, char_is_white, is_control, is_white};
use crate::text::to_chars;
use crate::types::IVec3;
use vstd::prelude::*;
use vstd::utf8::*;

verus! {

/// One word of a chat command: not empty, at most 128 bytes, and without white
/// space and control characters.
pub open spec fn command_atom(s: Seq<char>) -> bool {
    &&& s.len() > 0
    &&& encode_utf8(s).len() <= 128
    &&& forall|i: int| 0 <= i < s.len() ==> !is_white(#[trigger] s[i]) && !is_control(s[i])
}

pub fn valid_command_atom(value: &str) -> (valid: bool)
    ensures
        valid == command_atom(value@),
{
    let chars: Vec<char> = to_chars(value);
    if chars.len() == 0 || value.as_bytes().len() > 128 {
        return false;
    }
    let mut i: usize = 0;
    while i < chars.len()
        invariant
            i <= chars.len(),
            chars@ == value@,
            forall|k: int| 0 <= k < i ==> !is_white(#[trigger] value@[k]) && !is_control(value@[k]),
        decreases chars.len() - i,
    {
        if char_is_white(chars[i]) || char_is_control(chars[i]) {
            return false;
        }
        i = i + 1;
    }
    true
}

/// Three integers that are coordinates.
pub open spec fn coordinates(x: Option<i64>, y: Option<i64>, z: Option<i64>) -> Option<IVec3> {
    match (x, y, z) {
        (Some(x), Some(y), Some(z)) => if i32::MIN <= x <= i32::MAX && i32::MIN <= y <= i32::MAX
            && i32::MIN <= z <= i32::MAX {
            Some(IVec3 { x: x as i32, y: y as i32, z: z as i32 })
        } else {
            None
        },
        _ => None,
    }
}

/// A node position in JSON: an array that starts with three integers, or an
/// object with the integers `x`, `y` and `z`.
pub open spec fn node_position(v: JsonValue) -> Option<IVec3> {
    match array_of(v) {
        Some(items) => if items.len() < 3 {
            None
        } else {
            coordinates(i64_of(items[0]), i64_of(items[1]), i64_of(items[2]))
        },
        None => coordinates(i64_member(v, "x"@), i64_member(v, "y"@), i64_member(v, "z"@)),
    }
}

fn to_coordinates(x: Option<i64>, y: Option<i64>, z: Option<i64>) -> (pos: Option<IVec3>)
    ensures
        pos == coordinates(x, y, z),
{
    let x: i64 = x?;
    let y: i64 = y?;
    let z: i64 = z?;
    if i32::MIN as i64 <= x && x <= i32::MAX as i64 && i32::MIN as i64 <= y && y <= i32::MAX as i64
        && i32::MIN as i64 <= z && z <= i32::MAX as i64 {
        Some(IVec3 { x: x as i32, y: y as i32, z: z as i32 })
    } else {
        None
    }
}

fn int_member(value: &serde_json::Value, key: &str) -> (n: Option<i64>)
    ensures
        n == i64_member(json_value(*value), key@),
{
    member(value, key)?.as_i64()
}

pub fn parse_node_position(value: &serde_json::Value) -> (pos: Option<IVec3>)
    ensures
        pos == node_position(json_value(*value)),
{
    match value.as_array() {
        Some(items) => {
            if items.len() < 3 {
                return None;
            }
            assert(json_values(items@)[0] == json_value(items@[0]));
            assert(json_values(items@)[1] == json_value(items@[1]));
            assert(json_values(items@)[2] == json_value(items@[2]));
            to_coordinates(items[0].as_i64(), items[1].as_i64(), items[2].as_i64())
        },
        None => to_coordinates(
            int_member(value, "x"),
            int_member(value, "y"),
            int_member(value, "z"),
        ),
    }
}

/// Whether a reply belongs to the request with the given nonce.
pub open spec fn has_nonce(v: JsonValue, nonce: Seq<char>) -> bool {
    str_member(v, "nonce"@) == Some(nonce)
}

pub fn chest_reply_has_nonce(value: &serde_json::Value, expected: &str) -> (yes: bool)
    ensures
        yes == has_nonce(json_value(*value), expected@),
{
    str_member_is(value, "nonce", expected)
}

pub open spec fn position_member(v: JsonValue, key: Seq<char>) -> Option<IVec3> {
    match member_of(v, key) {
        Some(m) => node_position(m),
        None => None,
    }
}

pub open spec fn status_or(v: JsonValue, default: Seq<char>) -> Seq<char> {
    match str_member(v, "status"@) {
        Some(status) => status,
        None => default,
    }
}

pub(crate) fn get_position(v: &serde_json::Value, key: &str) -> (pos: Option<IVec3>)
    ensures
        pos == position_member(json_value(*v), key@),
{
    parse_node_position(member(v, key)?)
}

pub(crate) fn get_status(v: &serde_json::Value, default: &str) -> (status: String)
    ensures
        status@ == status_or(json_value(*v), default@),
{
    match get_str(v, "status") {
        Some(s) => s.to_owned(),
        None => default.to_owned(),
    }
}

/// A position that is written as three integers, or as an object with them, is read back.
pub proof fn positions_are_read_back(p: IVec3, v: JsonValue)
    ensures
        node_position(ints3(p.x as int, p.y as int, p.z as int)) == Some(p),
        array_of(v) is None && i64_member(v, "x"@) == Some(p.x as i64) && i64_member(v, "y"@)
            == Some(p.y as i64) && i64_member(v, "z"@) == Some(p.z as i64) ==> node_position(v)
            == Some(p),
{
}

/// A coordinate that does not fit makes no position.
pub proof fn far_coordinates_make_no_position(x: int, y: int, z: int)
    requires
        !(-0x8000_0000 <= x < 0x8000_0000 && -0x8000_0000 <= y < 0x8000_0000 && -0x8000_0000 <= z
            < 0x8000_0000),
    ensures
        node_position(ints3(x, y, z)) is None,
{
}

/// What may stand in a command is one word of up to 128 bytes: a character that is white or a
/// control character anywhere in it spoils it.
pub proof fn atoms_are_single_words(s: Seq<char>, i: int)
    requires
        0 <= i < s.len(),
    ensures
        is_white(s[i]) || is_control(s[i]) ==> !command_atom(s),
        encode_utf8(s).len() > 128 ==> !command_atom(s),
        !command_atom(seq![]),
        encode_utf8(s).len() <= 128 && (forall|k: int|
            0 <= k < s.len() ==> !is_white(#[trigger] s[k]) && !is_control(s[k])) ==> command_atom(
            s,
        ),
{
}

} // verus!
