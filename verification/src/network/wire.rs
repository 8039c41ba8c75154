//! Big-endian wire primitives. String decoding here is deliberately strict.
//!
//! A spec function whose name ends in `_in` says what stands at an offset of a
//! buffer: the value and the offset behind it, or `None` where the buffer does
//! not hold such a value there.

use crate::text::{copy_range, encode_utf8_concat, push_all, to_chars, utf8_to_string};
use crate::types::{BlockPos, Vec3};
use vstd::prelude::*;
use vstd::utf8::*;

verus! {

/// Why a read failed.
#[derive(Clone, Copy, Debug, PartialEq, Eq, Structural)]
pub enum WireError {
    /// The buffer ends before the value does.
    OutOfBounds,
    /// The bytes of a string are not UTF-8.
    InvalidUtf8,
    /// The units of a wide string are not UTF-16.
    InvalidUtf16,
}

/// The largest length that a 16 bit prefix can state.
pub const MAX_FIELD: usize = 65535;

pub open spec fn be16(v: u16) -> Seq<u8> {
    seq![(v / 256) as u8, (v % 256) as u8]
}

pub open spec fn be32(v: u32) -> Seq<u8> {
    seq![
        (v / 0x100_0000) as u8,
        ((v / 0x1_0000) % 256) as u8,
        ((v / 256) % 256) as u8,
        (v % 256) as u8,
    ]
}

/// Two's complement of a 16 bit number.
pub open spec fn unsigned16(v: i16) -> u16 {
    if v >= 0 {
        v as u16
    } else {
        (v + 0x1_0000) as u16
    }
}

pub open spec fn signed16(v: u16) -> i16 {
    if v < 0x8000 {
        v as i16
    } else {
        (v - 0x1_0000) as i16
    }
}

/// Two's complement of a 32 bit number.
pub open spec fn unsigned32(v: i32) -> u32 {
    if v >= 0 {
        v as u32
    } else {
        (v + 0x1_0000_0000) as u32
    }
}

pub open spec fn u16_at(b: Seq<u8>, at: int) -> u16 {
    (b[at] * 256 + b[at + 1]) as u16
}

pub open spec fn u32_at(b: Seq<u8>, at: int) -> u32 {
    (b[at] * 0x100_0000 + b[at + 1] * 0x1_0000 + b[at + 2] * 256 + b[at + 3]) as u32
}

pub open spec fn u8_in(b: Seq<u8>, at: int) -> Option<(u8, int)> {
    if at + 1 <= b.len() {
        Some((b[at], at + 1))
    } else {
        None
    }
}

pub open spec fn u16_in(b: Seq<u8>, at: int) -> Option<(u16, int)> {
    if at + 2 <= b.len() {
        Some((u16_at(b, at), at + 2))
    } else {
        None
    }
}

pub open spec fn u32_in(b: Seq<u8>, at: int) -> Option<(u32, int)> {
    if at + 4 <= b.len() {
        Some((u32_at(b, at), at + 4))
    } else {
        None
    }
}

pub open spec fn i16_in(b: Seq<u8>, at: int) -> Option<(i16, int)> {
    match u16_in(b, at) {
        Some((v, next)) => Some((signed16(v), next)),
        None => None,
    }
}

pub open spec fn v3s16_in(b: Seq<u8>, at: int) -> Option<(BlockPos, int)> {
    if at + 6 <= b.len() {
        Some((
            BlockPos {
                x: signed16(u16_at(b, at)),
                y: signed16(u16_at(b, at + 2)),
                z: signed16(u16_at(b, at + 4)),
            },
            at + 6,
        ))
    } else {
        None
    }
}

pub open spec fn v3f32_in(b: Seq<u8>, at: int) -> Option<(Vec3, int)> {
    if at + 12 <= b.len() {
        Some((
            Vec3 {
                x: u32_at(b, at),
                y: u32_at(b, at + 4),
                z: u32_at(b, at + 8),
            },
            at + 12,
        ))
    } else {
        None
    }
}

/// `len` raw bytes.
pub open spec fn raw_in(b: Seq<u8>, at: int, len: int) -> Option<(Seq<u8>, int)> {
    if at + len <= b.len() {
        Some((b.subrange(at, at + len), at + len))
    } else {
        None
    }
}

/// Bytes behind their 16 bit length.
pub open spec fn bytes_in(b: Seq<u8>, at: int) -> Option<(Seq<u8>, int)> {
    match u16_in(b, at) {
        Some((len, start)) => raw_in(b, start, len as int),
        None => None,
    }
}

/// Text in UTF-8 behind its 16 bit length in bytes.
pub open spec fn string_in(b: Seq<u8>, at: int) -> Option<(Seq<char>, int)> {
    match bytes_in(b, at) {
        Some((raw, next)) => if valid_utf8(raw) {
            Some((decode_utf8(raw), next))
        } else {
            None
        },
        None => None,
    }
}

/// The 16 bit units that stand in `b` from `at` on.
pub open spec fn units_in(b: Seq<u8>, at: int, count: int) -> Seq<u16> {
    Seq::new(count as nat, |k: int| u16_at(b, at + 2 * k))
}

/// Text in UTF-16 behind its 16 bit length in units.
pub open spec fn wstring_in(b: Seq<u8>, at: int) -> Option<(Seq<char>, int)> {
    match u16_in(b, at) {
        Some((count, start)) => if start + 2 * count <= b.len() {
            match decode_utf16(units_in(b, start, count as int)) {
                Some(text) => Some((text, start + 2 * count)),
                None => None,
            }
        } else {
            None
        },
        None => None,
    }
}

pub open spec fn utf8_width(c: char) -> int {
    encode_scalar(c as u32).len() as int
}

/// The characters of `s`, from the front, as long as their UTF-8 fits into `room` bytes.
pub open spec fn cut_utf8(s: Seq<char>, room: int) -> Seq<char>
    decreases s.len(),
{
    if s.len() == 0 || utf8_width(s[0]) > room {
        seq![]
    } else {
        seq![s[0]] + cut_utf8(s.drop_first(), room - utf8_width(s[0]))
    }
}

pub open spec fn utf16_of(c: char) -> Seq<u16> {
    if (c as u32) < 0x1_0000 {
        seq![c as u16]
    } else {
        seq![
            (0xd800 + (c as u32 - 0x1_0000) / 0x400) as u16,
            (0xdc00 + (c as u32 - 0x1_0000) % 0x400) as u16,
        ]
    }
}

pub open spec fn encode_utf16(s: Seq<char>) -> Seq<u16>
    decreases s.len(),
{
    if s.len() == 0 {
        seq![]
    } else {
        utf16_of(s[0]) + encode_utf16(s.drop_first())
    }
}

pub open spec fn is_surrogate(u: u16) -> bool {
    0xd800 <= u <= 0xdfff
}

pub open spec fn is_pair(hi: u16, lo: u16) -> bool {
    0xd800 <= hi <= 0xdbff && 0xdc00 <= lo <= 0xdfff
}

pub open spec fn pair_value(hi: u16, lo: u16) -> u32 {
    (0x1_0000 + (hi - 0xd800) * 0x400 + (lo - 0xdc00)) as u32
}

/// The text whose UTF-16 is `u`; `None` where a surrogate stands alone.
pub open spec fn decode_utf16(u: Seq<u16>) -> Option<Seq<char>>
    decreases u.len(),
{
    if u.len() == 0 {
        Some(seq![])
    } else if !is_surrogate(u[0]) {
        prepend(seq![u[0] as char], decode_utf16(u.skip(1)))
    } else if u.len() >= 2 && is_pair(u[0], u[1]) {
        prepend(seq![pair_value(u[0], u[1]) as char], decode_utf16(u.skip(2)))
    } else {
        None
    }
}

pub open spec fn prepend<A>(head: Seq<A>, rest: Option<Seq<A>>) -> Option<Seq<A>> {
    match rest {
        Some(rest) => Some(head + rest),
        None => None,
    }
}

/// The characters of `s`, from the front, as long as their UTF-16 fits into `room` units.
pub open spec fn cut_utf16(s: Seq<char>, room: int) -> Seq<char>
    decreases s.len(),
{
    if s.len() == 0 || utf16_of(s[0]).len() > room {
        seq![]
    } else {
        seq![s[0]] + cut_utf16(s.drop_first(), room - utf16_of(s[0]).len())
    }
}

/// What [`write_string`] appends.
pub open spec fn string_field(s: Seq<char>) -> Seq<u8> {
    let text = encode_utf8(cut_utf8(s, MAX_FIELD as int));
    be16(text.len() as u16) + text
}

/// What [`write_bytes`] appends.
pub open spec fn bytes_field(data: Seq<u8>) -> Seq<u8> {
    let len = if data.len() < MAX_FIELD { data.len() as int } else { MAX_FIELD as int };
    be16(len as u16) + data.take(len)
}

/// The bytes of 16 bit units, each with its high byte first.
pub open spec fn units_be(units: Seq<u16>) -> Seq<u8> {
    Seq::new(2 * units.len(), |i: int| be16(units[i / 2])[i % 2])
}

/// What [`write_wstring`] appends.
pub open spec fn wstring_field(s: Seq<char>) -> Seq<u8> {
    let units = encode_utf16(cut_utf16(s, MAX_FIELD as int));
    be16(units.len() as u16) + units_be(units)
}

pub open spec fn v3s16_field(v: BlockPos) -> Seq<u8> {
    be16(unsigned16(v.x)) + be16(unsigned16(v.y)) + be16(unsigned16(v.z))
}

pub fn write_u16(buf: &mut Vec<u8>, value: u16)
    ensures
        final(buf)@ == old(buf)@ + be16(value),
{
    buf.push((value / 256) as u8);
    buf.push((value % 256) as u8);
    assert(buf@ =~= old(buf)@ + be16(value));
}

pub fn write_u32(buf: &mut Vec<u8>, value: u32)
    ensures
        final(buf)@ == old(buf)@ + be32(value),
{
    buf.push((value / 0x100_0000) as u8);
    buf.push(((value / 0x1_0000) % 256) as u8);
    buf.push(((value / 256) % 256) as u8);
    buf.push((value % 256) as u8);
    assert(buf@ =~= old(buf)@ + be32(value));
}

/// Writes the bit pattern of a single precision number.
pub fn write_f32(buf: &mut Vec<u8>, bits: u32)
    ensures
        final(buf)@ == old(buf)@ + be32(bits),
{
    write_u32(buf, bits)
}

pub fn write_s32(buf: &mut Vec<u8>, value: i32)
    ensures
        final(buf)@ == old(buf)@ + be32(unsigned32(value)),
{
    let raw: u32 = if value >= 0 {
        value as u32
    } else {
        (value as i64 + 0x1_0000_0000) as u32
    };
    write_u32(buf, raw)
}

pub fn write_i16(buf: &mut Vec<u8>, value: i16)
    ensures
        final(buf)@ == old(buf)@ + be16(unsigned16(value)),
{
    let raw: u16 = if value >= 0 {
        value as u16
    } else {
        (value as i32 + 0x1_0000) as u16
    };
    write_u16(buf, raw)
}

pub fn write_v3s16(buf: &mut Vec<u8>, v: BlockPos)
    ensures
        final(buf)@ == old(buf)@ + v3s16_field(v),
{
    write_i16(buf, v.x);
    write_i16(buf, v.y);
    write_i16(buf, v.z);
    assert(buf@ =~= old(buf)@ + v3s16_field(v));
}

fn char_width_utf8(c: char) -> (width: usize)
    ensures
        width == utf8_width(c),
        1 <= width <= 4,
{
    let v: u32 = c as u32;
    if v <= 0x7f {
        1
    } else if v <= 0x7ff {
        2
    } else if v <= 0xffff {
        3
    } else {
        4
    }
}

proof fn cut_step(s: Seq<char>, i: int, room: int)
    requires
        0 <= i < s.len(),
        utf8_width(s[i]) <= room,
    ensures
        cut_utf8(s.skip(i), room) == seq![s[i]] + cut_utf8(s.skip(i + 1), room - utf8_width(s[i])),
{
    assert(s.skip(i).drop_first() =~= s.skip(i + 1));
}

proof fn encode_take_step(s: Seq<char>, i: int)
    requires
        0 <= i < s.len(),
    ensures
        encode_utf8(s.take(i + 1)) == encode_utf8(s.take(i)) + encode_scalar(s[i] as u32),
{
    let last = seq![s[i]];
    assert(s.take(i + 1) =~= s.take(i) + last);
    encode_utf8_concat(s.take(i), last);
    reveal_with_fuel(encode_utf8, 2);
    assert(encode_utf8(last) =~= encode_scalar(s[i] as u32));
}

/// Writes `s` in UTF-8 behind its length; what exceeds the length's range is cut
/// off at a character boundary.
pub fn write_string(buf: &mut Vec<u8>, s: &str)
    ensures
        final(buf)@ == old(buf)@ + string_field(s@),
{
    let chars: Vec<char> = to_chars(s);
    let bytes = s.as_bytes();
    let mut total: usize = 0;
    let mut i: usize = 0;
    proof {
        assert(s@.take(0) =~= Seq::<char>::empty());
        assert(s@.skip(0) =~= s@);
        assert(s@.take(0) + cut_utf8(s@, MAX_FIELD as int) =~= cut_utf8(s@, MAX_FIELD as int));
    }
    while i < chars.len() && total + char_width_utf8(chars[i]) <= MAX_FIELD
        invariant
            chars@ == s@,
            i <= chars.len(),
            total <= MAX_FIELD,
            total == encode_utf8(s@.take(i as int)).len(),
            cut_utf8(s@, MAX_FIELD as int) == s@.take(i as int) + cut_utf8(
                s@.skip(i as int),
                MAX_FIELD - total,
            ),
        ensures
            i <= chars.len(),
            total <= MAX_FIELD,
            total == encode_utf8(s@.take(i as int)).len(),
            cut_utf8(s@, MAX_FIELD as int) == s@.take(i as int) + cut_utf8(
                s@.skip(i as int),
                MAX_FIELD - total,
            ),
            i < chars.len() ==> total + utf8_width(chars@[i as int]) > MAX_FIELD,
        decreases chars.len() - i,
    {
        proof {
            cut_step(s@, i as int, MAX_FIELD - total);
            encode_take_step(s@, i as int);
            assert(s@.take(i + 1) =~= s@.take(i as int) + seq![s@[i as int]]);
        }
        total = total + char_width_utf8(chars[i]);
        i = i + 1;
        assert(cut_utf8(s@, MAX_FIELD as int) =~= s@.take(i as int) + cut_utf8(
            s@.skip(i as int),
            MAX_FIELD - total,
        ));
    }
    proof {
        assert(cut_utf8(s@.skip(i as int), MAX_FIELD - total) =~= Seq::<char>::empty());
        assert(cut_utf8(s@, MAX_FIELD as int) =~= s@.take(i as int));
        assert(s@ =~= s@.take(i as int) + s@.skip(i as int));
        encode_utf8_concat(s@.take(i as int), s@.skip(i as int));
        assert(bytes@.subrange(0, total as int) =~= encode_utf8(s@.take(i as int)));
    }
    write_u16(buf, total as u16);
    push_all(buf, &bytes[0..total]);
    assert(buf@ =~= old(buf)@ + string_field(s@));
}

/// Writes raw bytes behind their length; what exceeds the length's range is cut off.
pub fn write_bytes(buf: &mut Vec<u8>, data: &[u8])
    ensures
        final(buf)@ == old(buf)@ + bytes_field(data@),
{
    let len: usize = if data.len() < MAX_FIELD { data.len() } else { MAX_FIELD };
    write_u16(buf, len as u16);
    push_all(buf, &data[0..len]);
    assert(data@.subrange(0, len as int) =~= data@.take(len as int));
    assert(buf@ =~= old(buf)@ + bytes_field(data@));
}

/// The UTF-16 of one character.
fn char_utf16(c: char) -> (units: (u16, Option<u16>))
    ensures
        match units.1 {
            Some(lo) => utf16_of(c) == seq![units.0, lo],
            None => utf16_of(c) == seq![units.0],
        },
{
    let v: u32 = c as u32;
    if v < 0x1_0000 {
        (v as u16, None)
    } else {
        let offset: u32 = v - 0x1_0000;
        ((0xd800 + offset / 0x400) as u16, Some((0xdc00 + offset % 0x400) as u16))
    }
}

proof fn cut16_step(s: Seq<char>, i: int, room: int)
    requires
        0 <= i < s.len(),
        utf16_of(s[i]).len() <= room,
    ensures
        cut_utf16(s.skip(i), room) == seq![s[i]] + cut_utf16(
            s.skip(i + 1),
            room - utf16_of(s[i]).len(),
        ),
{
    assert(s.skip(i).drop_first() =~= s.skip(i + 1));
}

pub proof fn encode_utf16_concat(a: Seq<char>, b: Seq<char>)
    ensures
        encode_utf16(a + b) == encode_utf16(a) + encode_utf16(b),
    decreases a.len(),
{
    if a.len() == 0 {
        assert(a + b =~= b);
        assert(encode_utf16(a) + encode_utf16(b) =~= encode_utf16(b));
    } else {
        encode_utf16_concat(a.drop_first(), b);
        assert((a + b).drop_first() =~= a.drop_first() + b);
        assert(encode_utf16(a + b) =~= encode_utf16(a) + encode_utf16(b));
    }
}

proof fn encode16_take_step(s: Seq<char>, i: int)
    requires
        0 <= i < s.len(),
    ensures
        encode_utf16(s.take(i + 1)) == encode_utf16(s.take(i)) + utf16_of(s[i]),
{
    let last = seq![s[i]];
    assert(s.take(i + 1) =~= s.take(i) + last);
    encode_utf16_concat(s.take(i), last);
    reveal_with_fuel(encode_utf16, 2);
    assert(encode_utf16(last) =~= utf16_of(s[i]));
}

/// Writes `s` in UTF-16 behind its length in units; characters that would exceed
/// the length's range are left out.
pub fn write_wstring(buf: &mut Vec<u8>, s: &str)
    ensures
        final(buf)@ == old(buf)@ + wstring_field(s@),
{
    let chars: Vec<char> = to_chars(s);
    let mut wide: Vec<u16> = Vec::new();
    let mut i: usize = 0;
    proof {
        assert(s@.take(0) =~= Seq::<char>::empty());
        assert(s@.skip(0) =~= s@);
        assert(s@.take(0) + cut_utf16(s@, MAX_FIELD as int) =~= cut_utf16(s@, MAX_FIELD as int));
        assert(wide@ =~= encode_utf16(s@.take(0)));
    }
    let mut full = false;
    while i < chars.len() && !full
        invariant
            chars@ == s@,
            i <= chars.len(),
            wide@.len() <= MAX_FIELD,
            wide@ == encode_utf16(s@.take(i as int)),
            cut_utf16(s@, MAX_FIELD as int) == s@.take(i as int) + cut_utf16(
                s@.skip(i as int),
                MAX_FIELD - wide@.len(),
            ),
            full ==> i < chars.len() && wide@.len() + utf16_of(chars@[i as int]).len() > MAX_FIELD,
        decreases chars.len() - i + (if full { 0int } else { 1int }),
    {
        let (hi, lo) = char_utf16(chars[i]);
        let needed: usize = if lo.is_some() { 2 } else { 1 };
        if wide.len() + needed > MAX_FIELD {
            full = true;
        } else {
            proof {
                cut16_step(s@, i as int, MAX_FIELD - wide@.len());
                encode16_take_step(s@, i as int);
                assert(s@.take(i + 1) =~= s@.take(i as int) + seq![s@[i as int]]);
            }
            wide.push(hi);
            if let Some(lo) = lo {
                wide.push(lo);
            }
            i = i + 1;
            proof {
                assert(wide@ =~= encode_utf16(s@.take(i as int)));
                assert(cut_utf16(s@, MAX_FIELD as int) =~= s@.take(i as int) + cut_utf16(
                    s@.skip(i as int),
                    MAX_FIELD - wide@.len(),
                ));
            }
        }
    }
    proof {
        assert(cut_utf16(s@.skip(i as int), MAX_FIELD - wide@.len()) =~= Seq::<char>::empty());
        assert(cut_utf16(s@, MAX_FIELD as int) =~= s@.take(i as int));
    }
    write_u16(buf, wide.len() as u16);
    let ghost start = buf@;
    let mut k: usize = 0;
    assert(start + units_be(wide@.take(0)) =~= start);
    while k < wide.len()
        invariant
            k <= wide.len(),
            buf@ == start + units_be(wide@.take(k as int)),
        decreases wide.len() - k,
    {
        write_u16(buf, wide[k]);
        assert(units_be(wide@.take(k + 1)) =~= units_be(wide@.take(k as int)) + be16(wide@[k as int]));
        k = k + 1;
        assert(buf@ =~= start + units_be(wide@.take(k as int)));
    }
    assert(wide@.take(wide@.len() as int) =~= wide@);
    assert(buf@ =~= old(buf)@ + wstring_field(s@));
}

pub fn read_u8(buf: &[u8], offset: &mut usize) -> (result: Result<u8, WireError>)
    ensures
        match result {
            Ok(v) => u8_in(buf@, *old(offset) as int) == Some((v, *final(offset) as int)),
            Err(e) => e == WireError::OutOfBounds && u8_in(buf@, *old(offset) as int) is None
                && *final(offset) == *old(offset),
        },
{
    if *offset >= buf.len() {
        return Err(WireError::OutOfBounds);
    }
    let v: u8 = buf[*offset];
    *offset = *offset + 1;
    Ok(v)
}

pub fn read_u16(buf: &[u8], offset: &mut usize) -> (result: Result<u16, WireError>)
    ensures
        match result {
            Ok(v) => u16_in(buf@, *old(offset) as int) == Some((v, *final(offset) as int)),
            Err(e) => e == WireError::OutOfBounds && u16_in(buf@, *old(offset) as int) is None
                && *final(offset) == *old(offset),
        },
{
    if *offset > buf.len() || buf.len() - *offset < 2 {
        return Err(WireError::OutOfBounds);
    }
    let v: u16 = buf[*offset] as u16 * 256 + buf[*offset + 1] as u16;
    *offset = *offset + 2;
    Ok(v)
}

pub fn read_u32(buf: &[u8], offset: &mut usize) -> (result: Result<u32, WireError>)
    ensures
        match result {
            Ok(v) => u32_in(buf@, *old(offset) as int) == Some((v, *final(offset) as int)),
            Err(e) => e == WireError::OutOfBounds && u32_in(buf@, *old(offset) as int) is None
                && *final(offset) == *old(offset),
        },
{
    if *offset > buf.len() || buf.len() - *offset < 4 {
        return Err(WireError::OutOfBounds);
    }
    let v: u32 = buf[*offset] as u32 * 0x100_0000 + buf[*offset + 1] as u32 * 0x1_0000
        + buf[*offset + 2] as u32 * 256 + buf[*offset + 3] as u32;
    *offset = *offset + 4;
    Ok(v)
}

/// Reads a single precision number as its bit pattern.
pub fn read_f32_slice(buf: &[u8], offset: &mut usize) -> (result: Result<u32, WireError>)
    ensures
        match result {
            Ok(v) => u32_in(buf@, *old(offset) as int) == Some((v, *final(offset) as int)),
            Err(e) => e == WireError::OutOfBounds && u32_in(buf@, *old(offset) as int) is None
                && *final(offset) == *old(offset),
        },
{
    read_u32(buf, offset)
}

/// Where reading three numbers ends that are not all there: behind those that are.
pub open spec fn after_numbers(b: Seq<u8>, at: int) -> int {
    if u32_in(b, at) is None {
        at
    } else if u32_in(b, at + 4) is None {
        at + 4
    } else {
        at + 8
    }
}

/// Reads three numbers; where the buffer ends early, those before its end are consumed.
pub fn read_v3f32_slice(buf: &[u8], offset: &mut usize) -> (result: Result<Vec3, WireError>)
    ensures
        match result {
            Ok(v) => v3f32_in(buf@, *old(offset) as int) == Some((v, *final(offset) as int)),
            Err(e) => e == WireError::OutOfBounds && v3f32_in(buf@, *old(offset) as int) is None
                && *final(offset) == after_numbers(buf@, *old(offset) as int),
        },
{
    let x: u32 = read_f32_slice(buf, offset)?;
    let y: u32 = read_f32_slice(buf, offset)?;
    let z: u32 = read_f32_slice(buf, offset)?;
    Ok(Vec3 { x, y, z })
}

fn to_signed16(v: u16) -> (s: i16)
    ensures
        s == signed16(v),
{
    if v < 0x8000 {
        v as i16
    } else {
        (v as i32 - 0x1_0000) as i16
    }
}

pub fn read_i16_slice(buf: &[u8], offset: &mut usize) -> (result: Result<i16, WireError>)
    ensures
        match result {
            Ok(v) => i16_in(buf@, *old(offset) as int) == Some((v, *final(offset) as int)),
            Err(e) => e == WireError::OutOfBounds && i16_in(buf@, *old(offset) as int) is None
                && *final(offset) == *old(offset),
        },
{
    let v: u16 = read_u16(buf, offset)?;
    Ok(to_signed16(v))
}

/// Where reading three coordinates ends that are not all there: behind those that are.
pub open spec fn after_coordinates(b: Seq<u8>, at: int) -> int {
    if u16_in(b, at) is None {
        at
    } else if u16_in(b, at + 2) is None {
        at + 2
    } else {
        at + 4
    }
}

/// Reads three coordinates; where the buffer ends early, those before its end are consumed.
pub fn read_v3s16_slice(buf: &[u8], offset: &mut usize) -> (result: Result<BlockPos, WireError>)
    ensures
        match result {
            Ok(v) => v3s16_in(buf@, *old(offset) as int) == Some((v, *final(offset) as int)),
            Err(e) => e == WireError::OutOfBounds && v3s16_in(buf@, *old(offset) as int) is None
                && *final(offset) == after_coordinates(buf@, *old(offset) as int),
        },
{
    let x: i16 = read_i16_slice(buf, offset)?;
    let y: i16 = read_i16_slice(buf, offset)?;
    let z: i16 = read_i16_slice(buf, offset)?;
    Ok(BlockPos { x, y, z })
}

/// Where a reader of a length-prefixed field leaves the offset when the field is
/// not complete: behind the length, if that was there.
pub open spec fn after_length(b: Seq<u8>, at: int) -> int {
    if u16_in(b, at) is Some {
        at + 2
    } else {
        at
    }
}

pub fn read_bytes_slice(buf: &[u8], offset: &mut usize) -> (result: Result<Vec<u8>, WireError>)
    ensures
        match result {
            Ok(v) => bytes_in(buf@, *old(offset) as int) == Some((v@, *final(offset) as int)),
            Err(e) => e == WireError::OutOfBounds && bytes_in(buf@, *old(offset) as int) is None
                && *final(offset) == after_length(buf@, *old(offset) as int),
        },
{
    let len: usize = read_u16(buf, offset)? as usize;
    if buf.len() - *offset < len {
        return Err(WireError::OutOfBounds);
    }
    let out: Vec<u8> = copy_range(buf, *offset, *offset + len);
    *offset = *offset + len;
    Ok(out)
}

pub fn read_string_slice(buf: &[u8], offset: &mut usize) -> (result: Result<String, WireError>)
    ensures
        match result {
            Ok(s) => string_in(buf@, *old(offset) as int) == Some((s@, *final(offset) as int)),
            Err(e) => string_in(buf@, *old(offset) as int) is None
                && e == (if bytes_in(buf@, *old(offset) as int) is None {
                WireError::OutOfBounds
            } else {
                WireError::InvalidUtf8
            }) && *final(offset) == after_length(buf@, *old(offset) as int),
        },
{
    let len: usize = read_u16(buf, offset)? as usize;
    if buf.len() - *offset < len {
        return Err(WireError::OutOfBounds);
    }
    let raw: Vec<u8> = copy_range(buf, *offset, *offset + len);
    match utf8_to_string(raw) {
        Some(s) => {
            *offset = *offset + len;
            Ok(s)
        },
        None => Err(WireError::InvalidUtf8),
    }
}

/// Decodes UTF-16; `None` where a surrogate stands alone.
fn utf16_to_string(units: &[u16]) -> (text: Option<String>)
    ensures
        match text {
            Some(s) => decode_utf16(units@) == Some(s@),
            None => decode_utf16(units@) is None,
        },
{
    let mut out = String::new();
    let mut i: usize = 0;
    proof {
        assert(units@.skip(0) =~= units@);
        if decode_utf16(units@) is Some {
            assert(out@ + decode_utf16(units@)->0 =~= decode_utf16(units@)->0);
        }
    }
    while i < units.len()
        invariant
            i <= units.len(),
            decode_utf16(units@) == prepend(out@, decode_utf16(units@.skip(i as int))),
        decreases units.len() - i,
    {
        let hi: u16 = units[i];
        let ghost before = out@;
        let ghost rest = units@.skip(i as int);
        if hi < 0xd800 || hi > 0xdfff {
            match char::from_u32(hi as u32) {
                Some(c) => out.push(c),
                None => return None,
            }
            i = i + 1;
            assert(rest.skip(1) =~= units@.skip(i as int));
        } else {
            if hi > 0xdbff || units.len() - i < 2 {
                return None;
            }
            let lo: u16 = units[i + 1];
            if lo < 0xdc00 || lo > 0xdfff {
                return None;
            }
            let v: u32 = 0x1_0000 + (hi as u32 - 0xd800) * 0x400 + (lo as u32 - 0xdc00);
            match char::from_u32(v) {
                Some(c) => out.push(c),
                None => return None,
            }
            i = i + 2;
            assert(rest.skip(2) =~= units@.skip(i as int));
        }
        proof {
            if decode_utf16(units@.skip(i as int)) is Some {
                let tail = decode_utf16(units@.skip(i as int))->0;
                assert(out@ + tail =~= before + (seq![out@.last()] + tail));
            }
        }
    }
    assert(units@.skip(i as int) =~= Seq::<u16>::empty());
    assert(out@ + Seq::<char>::empty() =~= out@);
    Some(out)
}

pub fn read_wstring_slice(buf: &[u8], offset: &mut usize) -> (result: Result<String, WireError>)
    ensures
        match result {
            Ok(s) => wstring_in(buf@, *old(offset) as int) == Some((s@, *final(offset) as int)),
            Err(e) => wstring_in(buf@, *old(offset) as int) is None
                && match u16_in(buf@, *old(offset) as int) {
                Some((count, start)) if start + 2 * count <= buf@.len() => e
                    == WireError::InvalidUtf16 && *final(offset) == start + 2 * count,
                _ => e == WireError::OutOfBounds && *final(offset) == after_length(
                    buf@,
                    *old(offset) as int,
                ),
            },
        },
{
    let len: usize = read_u16(buf, offset)? as usize;
    if buf.len() - *offset < len * 2 {
        return Err(WireError::OutOfBounds);
    }
    let start: usize = *offset;
    let mut out: Vec<u16> = Vec::new();
    let mut k: usize = 0;
    while k < len
        invariant
            k <= len,
            len <= MAX_FIELD,
            start + 2 * len <= buf.len(),
            *offset == start + 2 * k,
            out@ =~= units_in(buf@, start as int, k as int),
        decreases len - k,
    {
        let hi: u8 = buf[*offset];
        let lo: u8 = buf[*offset + 1];
        out.push(hi as u16 * 256 + lo as u16);
        *offset = *offset + 2;
        k = k + 1;
    }
    match utf16_to_string(out.as_slice()) {
        Some(s) => Ok(s),
        None => Err(WireError::InvalidUtf16),
    }
}

/// A cut text is a prefix of the text, it fits, and one more character would not.
pub proof fn cut_utf8_is_longest_fitting_prefix(s: Seq<char>, room: int)
    requires
        room >= 0,
    ensures
        cut_utf8(s, room).is_prefix_of(s),
        encode_utf8(cut_utf8(s, room)).len() <= room,
        cut_utf8(s, room).len() < s.len() ==> encode_utf8(
            s.take(cut_utf8(s, room).len() as int + 1),
        ).len() > room,
        encode_utf8(s).len() <= room ==> cut_utf8(s, room) == s,
    decreases s.len(),
{
    let cut = cut_utf8(s, room);
    if s.len() == 0 {
    } else if utf8_width(s[0]) > room {
        encode_take_step(s, 0);
        assert(s.take(0) =~= Seq::<char>::empty());
    } else {
        let rest = s.drop_first();
        let rest_cut = cut_utf8(rest, room - utf8_width(s[0]));
        cut_utf8_is_longest_fitting_prefix(rest, room - utf8_width(s[0]));
        assert(cut.drop_first() =~= rest_cut);
        if cut.len() < s.len() {
            let next = s.take(cut.len() as int + 1);
            assert(next.drop_first() =~= rest.take(rest_cut.len() as int + 1));
        }
        if encode_utf8(s).len() <= room {
            assert(cut =~= s);
        }
    }
}

/// A cut wide text is a prefix of the text, it fits, and one more character would not.
pub proof fn cut_utf16_is_longest_fitting_prefix(s: Seq<char>, room: int)
    requires
        room >= 0,
    ensures
        cut_utf16(s, room).is_prefix_of(s),
        encode_utf16(cut_utf16(s, room)).len() <= room,
        cut_utf16(s, room).len() < s.len() ==> encode_utf16(
            s.take(cut_utf16(s, room).len() as int + 1),
        ).len() > room,
        encode_utf16(s).len() <= room ==> cut_utf16(s, room) == s,
    decreases s.len(),
{
    let cut = cut_utf16(s, room);
    if s.len() == 0 {
    } else if utf16_of(s[0]).len() > room {
        encode16_take_step(s, 0);
        assert(s.take(0) =~= Seq::<char>::empty());
    } else {
        let rest = s.drop_first();
        let rest_cut = cut_utf16(rest, room - utf16_of(s[0]).len());
        cut_utf16_is_longest_fitting_prefix(rest, room - utf16_of(s[0]).len());
        assert(cut.drop_first() =~= rest_cut);
        if cut.len() < s.len() {
            let next = s.take(cut.len() as int + 1);
            assert(next.drop_first() =~= rest.take(rest_cut.len() as int + 1));
        }
        if encode_utf16(s).len() <= room {
            assert(cut =~= s);
        }
    }
}

proof fn utf16_of_char_decodes(c: char)
    ensures
        ({
            let u = utf16_of(c);
            if (c as u32) < 0x1_0000 {
                u.len() == 1 && !is_surrogate(u[0]) && u[0] as char == c
            } else {
                u.len() == 2 && is_pair(u[0], u[1]) && pair_value(u[0], u[1]) as char == c
            }
        }),
{
}

/// Decoding the UTF-16 of a text gives the text back.
pub proof fn utf16_round_trip(s: Seq<char>)
    ensures
        decode_utf16(encode_utf16(s)) == Some(s),
    decreases s.len(),
{
    if s.len() > 0 {
        let u = encode_utf16(s);
        let rest = encode_utf16(s.drop_first());
        utf16_round_trip(s.drop_first());
        let c = s[0];
        utf16_of_char_decodes(c);
        if (c as u32) < 0x1_0000 {
            assert(u.skip(1) =~= rest);
        } else {
            assert(u.skip(2) =~= rest);
        }
        assert(seq![s[0]] + s.drop_first() =~= s);
    } else {
        assert(s =~= Seq::<char>::empty());
    }
}

/// What [`write_bytes`] wrote, [`read_bytes_slice`] reads back, wherever it stands.
pub proof fn bytes_field_round_trip(before: Seq<u8>, data: Seq<u8>, after: Seq<u8>)
    ensures
        bytes_in(before + bytes_field(data) + after, before.len() as int) == Some((
            data.take(if data.len() < MAX_FIELD { data.len() as int } else { MAX_FIELD as int }),
            (before.len() + bytes_field(data).len()) as int,
        )),
        data.len() <= MAX_FIELD ==> bytes_field(data) == be16(data.len() as u16) + data,
{
    let b = before + bytes_field(data) + after;
    let at = before.len() as int;
    let len = if data.len() < MAX_FIELD { data.len() as int } else { MAX_FIELD as int };
    assert(u16_at(b, at) == len);
    assert(b.subrange(at + 2, at + 2 + len) =~= data.take(len));
    if data.len() <= MAX_FIELD {
        assert(data.take(len) =~= data);
    }
}

/// What [`write_string`] wrote, [`read_string_slice`] reads back, wherever it
/// stands: the text itself where it fits, and its longest fitting prefix where not.
pub proof fn string_field_round_trip(before: Seq<u8>, s: Seq<char>, after: Seq<u8>)
    ensures
        string_in(before + string_field(s) + after, before.len() as int) == Some((
            cut_utf8(s, MAX_FIELD as int),
            (before.len() + string_field(s).len()) as int,
        )),
        encode_utf8(s).len() <= MAX_FIELD ==> cut_utf8(s, MAX_FIELD as int) == s,
{
    let cut = cut_utf8(s, MAX_FIELD as int);
    let text = encode_utf8(cut);
    cut_utf8_is_longest_fitting_prefix(s, MAX_FIELD as int);
    encode_utf8_valid_utf8(cut);
    encode_utf8_decode_utf8(cut);
    let b = before + string_field(s) + after;
    let at = before.len() as int;
    assert(u16_at(b, at) == text.len());
    assert(b.subrange(at + 2, at + 2 + text.len()) =~= text);
}

/// What [`write_wstring`] wrote, [`read_wstring_slice`] reads back, wherever it
/// stands: the text itself where it fits, and its longest fitting prefix where not.
pub proof fn wstring_field_round_trip(before: Seq<u8>, s: Seq<char>, after: Seq<u8>)
    ensures
        wstring_in(before + wstring_field(s) + after, before.len() as int) == Some((
            cut_utf16(s, MAX_FIELD as int),
            (before.len() + wstring_field(s).len()) as int,
        )),
        encode_utf16(s).len() <= MAX_FIELD ==> cut_utf16(s, MAX_FIELD as int) == s,
{
    let cut = cut_utf16(s, MAX_FIELD as int);
    let units = encode_utf16(cut);
    cut_utf16_is_longest_fitting_prefix(s, MAX_FIELD as int);
    utf16_round_trip(cut);
    let b = before + wstring_field(s) + after;
    let at = before.len() as int;
    assert(u16_at(b, at) == units.len());
    assert forall|k: int| 0 <= k < units.len() implies u16_at(b, at + 2 + 2 * k) == units[k] by {
        assert(b[at + 2 + 2 * k] == units_be(units)[2 * k]);
        assert(b[at + 3 + 2 * k] == units_be(units)[2 * k + 1]);
        assert((2 * k) / 2 == k && (2 * k) % 2 == 0 && (2 * k + 1) / 2 == k && (2 * k + 1) % 2 == 1);
    }
    assert(units_in(b, at + 2, units.len() as int) =~= units);
}

/// Numbers stand with their high byte first, and are read back wherever they stand.
#[verifier::rlimit(50)]
pub proof fn numbers_come_back(before: Seq<u8>, v: u16, w: u32, after: Seq<u8>)
    ensures
        be16(v).len() == 2,
        be16(v)[0] * 256 + be16(v)[1] == v,
        be32(w).len() == 4,
        be32(w)[0] * 0x100_0000 + be32(w)[1] * 0x1_0000 + be32(w)[2] * 256 + be32(w)[3] == w,
        u16_at(before + be16(v) + after, before.len() as int) == v,
        u16_in(before + be16(v) + after, before.len() as int) == Some(
            (v, before.len() as int + 2),
        ),
        u32_at(before + be32(w) + after, before.len() as int) == w,
        u32_in(before + be32(w) + after, before.len() as int) == Some(
            (w, before.len() as int + 4),
        ),
{
    let b = before + be16(v) + after;
    let at = before.len() as int;
    assert(b[at] == be16(v)[0] && b[at + 1] == be16(v)[1]);
    let c = before + be32(w) + after;
    assert(c[at] == be32(w)[0] && c[at + 1] == be32(w)[1] && c[at + 2] == be32(w)[2] && c[at + 3]
        == be32(w)[3]);
}

/// Signed numbers keep their value modulo the range, and come back.
pub proof fn signed_numbers_come_back(v: i16, u: u16, w: i32)
    ensures
        signed16(unsigned16(v)) == v,
        unsigned16(signed16(u)) == u,
        (unsigned16(v) - v) % 0x1_0000 == 0,
        (unsigned32(w) - w) % 0x1_0000_0000 == 0,
{
}

/// A position is read back wherever it stands.
#[verifier::rlimit(50)]
pub proof fn position_field_comes_back(before: Seq<u8>, p: BlockPos, after: Seq<u8>)
    ensures
        v3s16_field(p).len() == 6,
        v3s16_in(before + v3s16_field(p) + after, before.len() as int) == Some(
            (p, before.len() as int + 6),
        ),
        u16_at(v3s16_field(p), 0) == unsigned16(p.x),
        u16_at(v3s16_field(p), 2) == unsigned16(p.y),
        u16_at(v3s16_field(p), 4) == unsigned16(p.z),
{
    let b = before + v3s16_field(p) + after;
    let at = before.len() as int;
    assert forall|k: int| 0 <= k < 6 implies #[trigger] b[at + k] == v3s16_field(p)[k] by {}
    assert(b[at + 0] == be16(unsigned16(p.x))[0] && b[at + 1] == be16(unsigned16(p.x))[1]);
    assert(b[at + 2] == be16(unsigned16(p.y))[0] && b[at + 3] == be16(unsigned16(p.y))[1]);
    assert(b[at + 4] == be16(unsigned16(p.z))[0] && b[at + 5] == be16(unsigned16(p.z))[1]);
}

/// A text that fits its field stands there whole, in UTF-8 behind its length in bytes; a
/// wide text stands there in UTF-16 behind its length in units.
#[verifier::rlimit(50)]
pub proof fn short_texts_are_whole(before: Seq<u8>, s: Seq<char>, after: Seq<u8>)
    ensures
        encode_utf8(s).len() <= 65535 ==> {
            &&& string_field(s) == be16(encode_utf8(s).len() as u16) + encode_utf8(s)
            &&& string_in(before + string_field(s) + after, before.len() as int) == Some(
                (s, before.len() as int + 2 + encode_utf8(s).len()),
            )
        },
        encode_utf16(s).len() <= 65535 ==> {
            &&& wstring_field(s) == be16(encode_utf16(s).len() as u16) + units_be(encode_utf16(s))
            &&& wstring_in(before + wstring_field(s) + after, before.len() as int) == Some(
                (s, before.len() as int + 2 + 2 * encode_utf16(s).len()),
            )
        },
{
    string_field_round_trip(before, s, after);
    wstring_field_round_trip(before, s, after);
}

/// Bytes that fit their field stand there whole, behind their length.
pub proof fn short_bytes_are_whole(before: Seq<u8>, data: Seq<u8>, after: Seq<u8>)
    ensures
        data.len() <= 65535 ==> {
            &&& bytes_field(data) == be16(data.len() as u16) + data
            &&& bytes_in(before + bytes_field(data) + after, before.len() as int) == Some(
                (data, before.len() as int + 2 + data.len()),
            )
        },
{
    bytes_field_round_trip(before, data, after);
    if data.len() <= 65535 {
        assert(data.take(data.len() as int) =~= data);
    }
}

/// Parts in a row may be read as two parts with what is between them, anywhere.
#[verifier::rlimit(50)]
pub(crate) proof fn regrouped(
    a: Seq<u8>,
    b: Seq<u8>,
    c: Seq<u8>,
    d: Seq<u8>,
    e: Seq<u8>,
    f: Seq<u8>,
)
    ensures
        a + b + c == a + (b + c),
        a + b + c + d == a + b + (c + d),
        a + b + c + d == a + (b + c + d),
        a + b + c + d + e == a + b + c + (d + e),
        a + b + c + d + e == a + b + (c + d + e),
        a + b + c + d + e == a + (b + c + d + e),
        a + b + c + d + e + f == a + b + c + d + (e + f),
        a + b + c + d + e + f == a + b + c + (d + e + f),
        a + b + c + d + e + f == a + b + (c + d + e + f),
        a + b + c + d + e + f == a + (b + c + d + e + f),
        Seq::<u8>::empty() + a == a,
        a + Seq::<u8>::empty() == a,
{
    assert(a + b + c =~= a + (b + c));
    assert(a + b + c + d =~= a + b + (c + d));
    assert(a + b + c + d =~= a + (b + c + d));
    assert(a + b + c + d + e =~= a + b + c + (d + e));
    assert(a + b + c + d + e =~= a + b + (c + d + e));
    assert(a + b + c + d + e =~= a + (b + c + d + e));
    assert(a + b + c + d + e + f =~= a + b + c + d + (e + f));
    assert(a + b + c + d + e + f =~= a + b + c + (d + e + f));
    assert(a + b + c + d + e + f =~= a + b + (c + d + e + f));
    assert(a + b + c + d + e + f =~= a + (b + c + d + e + f));
    assert(Seq::<u8>::empty() + a =~= a);
    assert(a + Seq::<u8>::empty() =~= a);
}

/// What stands between two parts is found there.
pub(crate) proof fn part_between(before: Seq<u8>, part: Seq<u8>, after: Seq<u8>)
    ensures
        (before + part + after).subrange(
            before.len() as int,
            before.len() as int + part.len() as int,
        ) == part,
        part.len() > 0 ==> (before + part + after)[before.len() as int] == part[0],
        (before + part + after).len() == before.len() + part.len() + after.len(),
{
    assert((before + part + after).subrange(
        before.len() as int,
        before.len() as int + part.len() as int,
    ) =~= part);
}

#[verifier::rlimit(50)]
proof fn unit_comes_back(before: Seq<u8>, units: Seq<u16>, after: Seq<u8>, k: int)
    requires
        0 <= k < units.len(),
    ensures
        u16_at(before + units_be(units) + after, before.len() + 2 * k) == units[k],
{
    let q = units_be(units);
    let p = before + q + after;
    let at = before.len() + 2 * k;
    assert((2 * k) / 2 == k && (2 * k) % 2 == 0 && (2 * k + 1) / 2 == k && (2 * k + 1) % 2 == 1);
    assert(q[2 * k] == be16(units[k])[0] && q[2 * k + 1] == be16(units[k])[1]);
    assert(p[at] == q[2 * k]);
    assert(p[at + 1] == q[2 * k + 1]);
}

/// Units are read back wherever they stand.
#[verifier::rlimit(50)]
pub proof fn units_come_back(before: Seq<u8>, units: Seq<u16>, after: Seq<u8>)
    ensures
        units_in(
            before + units_be(units) + after,
            before.len() as int,
            units.len() as int,
        ) == units,
{
    let p = before + units_be(units) + after;
    let at = before.len() as int;
    assert forall|k: int| 0 <= k < units.len() implies #[trigger] units_in(
        p,
        at,
        units.len() as int,
    )[k] == units[k] by {
        unit_comes_back(before, units, after, k);
    }
    assert(units_in(p, at, units.len() as int) =~= units);
}

/// Where a buffer ends early, as many numbers are consumed as are there.
pub proof fn short_buffers_are_consumed(b: Seq<u8>, at: int)
    requires
        0 <= at <= b.len(),
        b.len() < at + 12,
    ensures
        after_numbers(b, at) == at + 4 * ((b.len() - at) / 4),
        b.len() < at + 6 ==> after_coordinates(b, at) == at + 2 * ((b.len() - at) / 2),
        after_length(b, at) == if b.len() >= at + 2 {
            at + 2
        } else {
            at
        },
        i16_in(b, at) is Some <==> b.len() >= at + 2,
        b.len() >= at + 2 ==> i16_in(b, at) == Some((signed16(u16_at(b, at)), at + 2)),
{
}

} // verus!
