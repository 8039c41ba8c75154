//! Natural numbers of any size, as bytes with the most significant one first.
//!
//! The arithmetic is that of `num_bigint`.

use crate::text::{digit, hex_digits};
use num_bigint::BigUint;
use num_traits::Num;
use vstd::arithmetic::power::{lemma_pow0, lemma_pow1, lemma_pow_adds, pow};
use vstd::prelude::*;

verus! {

/// The number that bytes stand for.
pub open spec fn be_value(s: Seq<u8>) -> nat
    decreases s.len(),
{
    if s.len() == 0 {
        0
    } else {
        256 * be_value(s.drop_last()) + s.last() as nat
    }
}

/// The bytes of a number, without leading zeros; zero is one zero byte.
pub open spec fn be_bytes(n: nat) -> Seq<u8>
    decreases n,
{
    if n < 256 {
        seq![n as u8]
    } else {
        be_bytes(n / 256).push((n % 256) as u8)
    }
}

pub open spec fn is_hex_digit(c: char) -> bool {
    ('0' <= c <= '9') || ('a' <= c <= 'f') || ('A' <= c <= 'F')
}

pub open spec fn all_hex(s: Seq<char>) -> bool {
    forall|i: int| 0 <= i < s.len() ==> is_hex_digit(#[trigger] s[i])
}

pub open spec fn hex_digit_value(c: char) -> nat {
    if '0' <= c <= '9' {
        (c as u32 - '0' as u32) as nat
    } else if 'a' <= c <= 'f' {
        (c as u32 - 'a' as u32 + 10) as nat
    } else {
        (c as u32 - 'A' as u32 + 10) as nat
    }
}

/// The number that hexadecimal digits stand for.
pub open spec fn hex_value(s: Seq<char>) -> nat
    decreases s.len(),
{
    if s.len() == 0 {
        0
    } else {
        16 * hex_value(s.drop_last()) + hex_digit_value(s.last())
    }
}

/// Bytes without leading zeros stand for the number that has these bytes.
pub proof fn be_bytes_of_value(s: Seq<u8>)
    requires
        s.len() > 0,
        s[0] != 0 || s.len() == 1,
    ensures
        be_bytes(be_value(s)) == s,
        s[0] != 0 ==> be_value(s) > 0,
    decreases s.len(),
{
    if s.len() == 1 {
        reveal_with_fuel(be_value, 2);
        assert(be_value(s) == s[0]);
        assert(s =~= seq![s[0]]);
    } else {
        let front = s.drop_last();
        be_bytes_of_value(front);
        assert(front[0] == s[0]);
        let n = be_value(s);
        assert(n == 256 * be_value(front) + s.last());
        assert(n >= 256 && n / 256 == be_value(front) && n % 256 == s.last());
        assert(be_bytes(n) == be_bytes(n / 256).push((n % 256) as u8));
        assert(s =~= front.push(s.last()));
    }
}

/// The bytes of a number stand for it.
pub proof fn value_of_be_bytes(n: nat)
    ensures
        be_value(be_bytes(n)) == n,
        be_bytes(n).len() >= 1,
    decreases n,
{
    if n < 256 {
        reveal_with_fuel(be_value, 2);
        assert(be_bytes(n).drop_last() =~= Seq::<u8>::empty());
    } else {
        value_of_be_bytes(n / 256);
        assert(be_bytes(n).drop_last() =~= be_bytes(n / 256));
    }
}

/// A number of so many bytes is below the power of 256 with that exponent.
pub proof fn value_is_bounded(s: Seq<u8>)
    ensures
        be_value(s) < pow(256, s.len()),
    decreases s.len(),
{
    if s.len() == 0 {
        lemma_pow0(256);
    } else {
        value_is_bounded(s.drop_last());
        lemma_pow_adds(256, (s.len() - 1) as nat, 1);
        lemma_pow1(256);
        assert(pow(256, s.len()) == pow(256, (s.len() - 1) as nat) * 256);
    }
}

/// `BigUint::from_str_radix` in base sixteen reads hexadecimal digits. It accepts a
/// leading plus and underscores as well, of which nothing is said.
#[verifier::external_body]
pub(crate) fn number_from_hex(text: &str) -> (n: Option<Vec<u8>>)
    ensures
        text@.len() > 0 && all_hex(text@) ==> n is Some && n->0@ == be_bytes(hex_value(text@)),
{
    BigUint::from_str_radix(text, 16).ok().map(|n| n.to_bytes_be())
}

/// `BigUint::modpow` raises to a power modulo a number, which is not zero.
#[verifier::external_body]
pub(crate) fn mod_pow(base: &[u8], exponent: &[u8], modulus: &[u8]) -> (n: Vec<u8>)
    requires
        be_value(modulus@) > 0,
    ensures
        n@ == be_bytes(
            (pow(be_value(base@) as int, be_value(exponent@)) % be_value(modulus@) as int) as nat,
        ),
{
    let modulus = BigUint::from_bytes_be(modulus);
    let exponent = BigUint::from_bytes_be(exponent);
    BigUint::from_bytes_be(base).modpow(&exponent, &modulus).to_bytes_be()
}

/// The product of two `BigUint`.
#[verifier::external_body]
pub(crate) fn product(a: &[u8], b: &[u8]) -> (n: Vec<u8>)
    ensures
        n@ == be_bytes(be_value(a@) * be_value(b@)),
{
    (BigUint::from_bytes_be(a) * BigUint::from_bytes_be(b)).to_bytes_be()
}

/// The sum of two `BigUint`.
#[verifier::external_body]
pub(crate) fn sum(a: &[u8], b: &[u8]) -> (n: Vec<u8>)
    ensures
        n@ == be_bytes(be_value(a@) + be_value(b@)),
{
    (BigUint::from_bytes_be(a) + BigUint::from_bytes_be(b)).to_bytes_be()
}

/// The difference of two `BigUint`; it panics where it would be negative.
#[verifier::external_body]
pub(crate) fn difference(a: &[u8], b: &[u8]) -> (n: Vec<u8>)
    requires
        be_value(b@) <= be_value(a@),
    ensures
        n@ == be_bytes((be_value(a@) - be_value(b@)) as nat),
{
    (BigUint::from_bytes_be(a) - BigUint::from_bytes_be(b)).to_bytes_be()
}

/// The remainder of two `BigUint`; it panics where the divisor is zero.
#[verifier::external_body]
pub(crate) fn remainder(a: &[u8], b: &[u8]) -> (n: Vec<u8>)
    requires
        be_value(b@) > 0,
    ensures
        n@ == be_bytes(be_value(a@) % be_value(b@)),
{
    (BigUint::from_bytes_be(a) % BigUint::from_bytes_be(b)).to_bytes_be()
}

/// The order of two `BigUint`.
#[verifier::external_body]
pub(crate) fn at_least(a: &[u8], b: &[u8]) -> (yes: bool)
    ensures
        yes == (be_value(a@) >= be_value(b@)),
{
    BigUint::from_bytes_be(a) >= BigUint::from_bytes_be(b)
}

proof fn leading_zero_counts_nothing(s: Seq<u8>)
    requires
        s.len() > 0,
        s[0] == 0,
    ensures
        be_value(s.drop_first()) == be_value(s),
    decreases s.len(),
{
    if s.len() == 1 {
        assert(s.drop_last() =~= Seq::<u8>::empty());
        assert(s.drop_first() =~= Seq::<u8>::empty());
    } else {
        leading_zero_counts_nothing(s.drop_last());
        assert(s.drop_first().drop_last() =~= s.drop_last().drop_first());
    }
}

/// The same number without leading zeros.
pub fn without_leading_zeros(bytes: &[u8]) -> (n: Vec<u8>)
    ensures
        n@ == be_bytes(be_value(bytes@)),
{
    let mut i: usize = 0;
    assert(bytes@.skip(0) =~= bytes@);
    while i < bytes.len() && bytes[i] == 0
        invariant
            i <= bytes.len(),
            be_value(bytes@.skip(i as int)) == be_value(bytes@),
        ensures
            i <= bytes.len(),
            be_value(bytes@.skip(i as int)) == be_value(bytes@),
            i < bytes.len() ==> bytes@[i as int] != 0,
        decreases bytes.len() - i,
    {
        proof {
            leading_zero_counts_nothing(bytes@.skip(i as int));
            assert(bytes@.skip(i as int).drop_first() =~= bytes@.skip(i + 1));
        }
        i = i + 1;
    }
    if i == bytes.len() {
        let mut zero: Vec<u8> = Vec::new();
        zero.push(0);
        assert(be_value(bytes@.skip(i as int)) == 0);
        assert(zero@ =~= be_bytes(0));
        return zero;
    }
    proof {
        be_bytes_of_value(bytes@.skip(i as int));
    }
    let n: Vec<u8> = crate::text::copy_range(bytes, i, bytes.len());
    assert(n@ =~= bytes@.skip(i as int));
    n
}

/// A number in hexadecimal is read back from its digits, which are small letters.
pub proof fn hexadecimal_is_read_back(n: nat)
    ensures
        hex_value(hex_digits(n)) == n,
        all_hex(hex_digits(n)),
        forall|i: int|
            0 <= i < hex_digits(n).len() ==> ('0' <= #[trigger] hex_digits(n)[i] <= '9') || ('a'
                <= hex_digits(n)[i] <= 'f'),
    decreases n,
{
    let s = hex_digits(n);
    if n < 16 {
        assert(s.drop_last() =~= seq![]);
        assert(s.last() == digit(n as int));
        assert(hex_value(s.drop_last()) == 0);
    } else {
        hexadecimal_is_read_back(n / 16);
        assert(s.drop_last() =~= hex_digits(n / 16));
        assert(s.last() == digit((n % 16) as int));
        assert forall|i: int| 0 <= i < s.len() implies ('0' <= #[trigger] s[i] <= '9') || ('a'
            <= s[i] <= 'f') by {
            if i < s.len() - 1 {
                assert(s[i] == hex_digits(n / 16)[i]);
            }
        }
    }
}

} // verus!
