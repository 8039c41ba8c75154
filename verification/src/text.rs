//! Characters, strings and bytes: the operations that the rest of the library
//! uses on text, each stated over sequences of characters.

use vstd::prelude::*;
use vstd::utf8::*;

verus! {

/// `String::push` appends one character.
pub assume_specification[ String::push ](s: &mut String, c: char)
    ensures
        final(s)@ == old(s)@.push(c),
;

/// `char::from_u32` accepts exactly the Unicode scalar values, and converts a
/// scalar value to the character with that value.
pub assume_specification[ char::from_u32 ](v: u32) -> (c: Option<char>)
    ensures
        c == (if is_scalar(v) { Some(v as char) } else { None::<char> }),
;

/// `String::from_utf8` succeeds exactly on valid UTF-8 and then gives the text
/// that the bytes encode.
#[verifier::external_body]
pub(crate) fn utf8_to_string(bytes: Vec<u8>) -> (text: Option<String>)
    ensures
        match text {
            Some(s) => valid_utf8(bytes@) && s@ == decode_utf8(bytes@),
            None => !valid_utf8(bytes@),
        },
{
    String::from_utf8(bytes).ok()
}

/// The text that `String::from_utf8_lossy` makes of bytes that are not UTF-8: each
/// malformed part is replaced by U+FFFD.
pub uninterp spec fn utf8_repaired(bytes: Seq<u8>) -> Seq<char>;

pub open spec fn utf8_lossy(bytes: Seq<u8>) -> Seq<char> {
    if valid_utf8(bytes) {
        decode_utf8(bytes)
    } else {
        utf8_repaired(bytes)
    }
}

/// `String::from_utf8_lossy` decodes valid UTF-8 as it stands, and otherwise gives
/// a text that depends on the bytes alone.
#[verifier::external_body]
pub(crate) fn utf8_to_string_lossy(bytes: &[u8]) -> (text: String)
    ensures
        text@ == (if valid_utf8(bytes@) { decode_utf8(bytes@) } else { utf8_repaired(bytes@) }),
{
    String::from_utf8_lossy(bytes).into_owned()
}

/// The text of an optional string.
pub open spec fn text_view(s: Option<String>) -> Option<Seq<char>> {
    match s {
        Some(s) => Some(s@),
        None => None,
    }
}

/// The characters of a string.
pub fn to_chars(s: &str) -> (chars: Vec<char>)
    ensures
        chars@ == s@,
{
    let mut chars: Vec<char> = Vec::new();
    for c in iter: s.chars()
        invariant
            iter.seq() == s@,
            chars@ == s@.take(iter.index() as int),
    {
        chars.push(c);
        assert(s@.take(iter.index() + 1) =~= s@.take(iter.index() as int).push(c));
    }
    assert(s@.take(s@.len() as int) =~= s@);
    chars
}

/// The string made of the given characters.
pub fn from_chars(chars: &[char]) -> (s: String)
    ensures
        s@ == chars@,
{
    let mut s = String::new();
    let mut i: usize = 0;
    while i < chars.len()
        invariant
            i <= chars.len(),
            s@ == chars@.take(i as int),
        decreases chars.len() - i,
    {
        s.push(chars[i]);
        assert(chars@.take(i + 1) =~= chars@.take(i as int).push(chars@[i as int]));
        i = i + 1;
    }
    assert(chars@.take(chars.len() as int) =~= chars@);
    s
}

/// Appends `data` to `buf`.
pub fn push_all(buf: &mut Vec<u8>, data: &[u8])
    ensures
        final(buf)@ == old(buf)@ + data@,
{
    buf.extend_from_slice(data);
    assert(buf@ =~= old(buf)@ + data@);
}

/// A copy of `data[from..to]`.
pub fn copy_range(data: &[u8], from: usize, to: usize) -> (out: Vec<u8>)
    requires
        from <= to <= data.len(),
    ensures
        out@ == data@.subrange(from as int, to as int),
{
    let mut out: Vec<u8> = Vec::new();
    push_all(&mut out, &data[from..to]);
    assert(out@ =~= data@.subrange(from as int, to as int));
    out
}

/// UTF-8 encodes a concatenation piece by piece.
pub proof fn encode_utf8_concat(a: Seq<char>, b: Seq<char>)
    ensures
        encode_utf8(a + b) == encode_utf8(a) + encode_utf8(b),
    decreases a.len(),
{
    if a.len() == 0 {
        assert(a + b =~= b);
        assert(encode_utf8(a) + encode_utf8(b) =~= encode_utf8(b));
    } else {
        encode_utf8_concat(a.drop_first(), b);
        assert((a + b).drop_first() =~= a.drop_first() + b);
        assert(encode_utf8(a + b) =~= encode_utf8(a) + encode_utf8(b));
    }
}

/// The character of a digit, in bases up to sixteen.
pub open spec fn digit(d: int) -> char {
    if d < 10 {
        ('0' as u32 + d) as char
    } else {
        ('a' as u32 + d - 10) as char
    }
}

/// A natural number in decimal, without leading zeros.
pub open spec fn dec_digits(n: nat) -> Seq<char>
    decreases n,
{
    if n < 10 {
        seq![digit(n as int)]
    } else {
        dec_digits(n / 10).push(digit((n % 10) as int))
    }
}

/// A natural number in hexadecimal, without leading zeros.
pub open spec fn hex_digits(n: nat) -> Seq<char>
    decreases n,
{
    if n < 16 {
        seq![digit(n as int)]
    } else {
        hex_digits(n / 16).push(digit((n % 16) as int))
    }
}

/// A number in decimal.
pub open spec fn dec(n: int) -> Seq<char> {
    if n < 0 {
        seq!['-'] + dec_digits((-n) as nat)
    } else {
        dec_digits(n as nat)
    }
}

/// A number in hexadecimal.
pub open spec fn hex(n: int) -> Seq<char> {
    hex_digits(n as nat)
}

fn digit_char(d: u8) -> (c: char)
    requires
        d < 16,
    ensures
        c == digit(d as int),
{
    if d < 10 {
        (48 + d) as char
    } else {
        (87 + d) as char
    }
}

/// Appends an unsigned number in decimal.
pub fn push_dec_unsigned(s: &mut String, n: u128)
    ensures
        final(s)@ == old(s)@ + dec(n as int),
    decreases n,
{
    let ghost start = s@;
    if n >= 10 {
        push_dec_unsigned(s, n / 10);
    }
    s.push(digit_char((n % 10) as u8));
    assert(s@ =~= start + dec(n as int));
}

/// Appends a number in hexadecimal.
pub fn push_hex(s: &mut String, n: u64)
    ensures
        final(s)@ == old(s)@ + hex(n as int),
    decreases n,
{
    let ghost start = s@;
    if n >= 16 {
        push_hex(s, n / 16);
    }
    s.push(digit_char((n % 16) as u8));
    assert(s@ =~= start + hex(n as int));
}

/// Appends a number in decimal.
pub fn push_dec(s: &mut String, n: i64)
    ensures
        final(s)@ == old(s)@ + dec(n as int),
{
    if n < 0 {
        s.push('-');
        push_dec_unsigned(s, (-(n as i128)) as u128);
        assert(s@ =~= old(s)@ + dec(n as int));
    } else {
        push_dec_unsigned(s, n as u128);
    }
}

proof fn digit_injective(a: int, b: int)
    requires
        0 <= a < 16,
        0 <= b < 16,
        digit(a) == digit(b),
    ensures
        a == b,
{
}

/// A number is told by its decimal digits, none of which is a minus.
pub proof fn dec_digits_injective(m: nat, n: nat)
    ensures
        dec_digits(m).len() >= 1,
        forall|i: int| 0 <= i < dec_digits(m).len() ==> #[trigger] dec_digits(m)[i] != '-',
        dec_digits(m) == dec_digits(n) ==> m == n,
    decreases m + n,
{
    if m >= 10 {
        dec_digits_injective(m / 10, if n >= 10 { n / 10 } else { 0 });
        assert(dec_digits(m).drop_last() =~= dec_digits(m / 10));
        assert forall|i: int| 0 <= i < dec_digits(m).len() implies #[trigger] dec_digits(m)[i]
            != '-' by {
            if i < dec_digits(m).len() - 1 {
                assert(dec_digits(m)[i] == dec_digits(m / 10)[i]);
            }
        }
    }
    if n >= 10 && m < 10 {
        dec_digits_injective(n / 10, 0);
    }
    if dec_digits(m) == dec_digits(n) {
        if n >= 10 {
            assert(dec_digits(n).drop_last() =~= dec_digits(n / 10));
        }
        assert(dec_digits(m).last() == dec_digits(n).last());
        digit_injective((m % 10) as int, (n % 10) as int);
    }
}

/// A number is told by its hexadecimal digits, none of which is a minus.
pub proof fn hex_digits_injective(m: nat, n: nat)
    ensures
        hex_digits(m).len() >= 1,
        forall|i: int| 0 <= i < hex_digits(m).len() ==> #[trigger] hex_digits(m)[i] != '-',
        hex_digits(m) == hex_digits(n) ==> m == n,
    decreases m + n,
{
    if m >= 16 {
        hex_digits_injective(m / 16, if n >= 16 { n / 16 } else { 0 });
        assert(hex_digits(m).drop_last() =~= hex_digits(m / 16));
        assert forall|i: int| 0 <= i < hex_digits(m).len() implies #[trigger] hex_digits(m)[i]
            != '-' by {
            if i < hex_digits(m).len() - 1 {
                assert(hex_digits(m)[i] == hex_digits(m / 16)[i]);
            }
        }
    }
    if n >= 16 && m < 16 {
        hex_digits_injective(n / 16, 0);
    }
    if hex_digits(m) == hex_digits(n) {
        if n >= 16 {
            assert(hex_digits(n).drop_last() =~= hex_digits(n / 16));
        }
        assert(hex_digits(m).last() == hex_digits(n).last());
        digit_injective((m % 16) as int, (n % 16) as int);
    }
}

} // verus!
