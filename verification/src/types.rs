//! Plain values shared by the protocol, the world model and the bot.

use vstd::prelude::*;

verus! {

/// Position of a map block, or of a node whose coordinates fit the wire's 16 bits.
#[derive(Clone, Copy, Debug, PartialEq, Eq, Hash, Structural)]
pub struct BlockPos {
    pub x: i16,
    pub y: i16,
    pub z: i16,
}

/// Integer node position.
#[derive(Clone, Copy, Debug, PartialEq, Eq, Hash, Structural)]
pub struct IVec3 {
    pub x: i32,
    pub y: i32,
    pub z: i32,
}

/// Three single precision numbers, each held as its IEEE 754 bit pattern.
#[derive(Clone, Copy, Debug, PartialEq, Eq, Hash, Structural)]
pub struct Vec3 {
    pub x: u32,
    pub y: u32,
    pub z: u32,
}

/// The exponent bits of a single precision number are not all ones: the number
/// is neither an infinity nor a NaN.
pub open spec fn finite_bits(bits: u32) -> bool {
    (bits / 0x80_0000) % 0x100 != 0xff
}

/// The bit pattern without its sign bit. For finite numbers the order of
/// magnitudes is the order of these patterns.
pub open spec fn magnitude_bits(bits: u32) -> u32 {
    (bits % 0x8000_0000) as u32
}

/// Whether `bits` is the pattern of a finite number.
pub fn is_finite_bits(bits: u32) -> (finite: bool)
    ensures
        finite == finite_bits(bits),
{
    (bits / 0x80_0000) % 0x100 != 0xff
}

impl Vec3 {
    pub open spec fn finite(self) -> bool {
        finite_bits(self.x) && finite_bits(self.y) && finite_bits(self.z)
    }

    pub fn is_finite(self) -> (finite: bool)
        ensures
            finite == self.finite(),
    {
        is_finite_bits(self.x) && is_finite_bits(self.y) && is_finite_bits(self.z)
    }
}

impl Default for Vec3 {
    fn default() -> (v: Self)
        ensures
            v == (Vec3 { x: 0, y: 0, z: 0 }),
    {
        Vec3 { x: 0, y: 0, z: 0 }
    }
}

/// A time in milliseconds `ms` after `now`.
pub open spec fn later(now: u64, ms: u64) -> u64 {
    if now + ms <= u64::MAX {
        (now + ms) as u64
    } else {
        u64::MAX
    }
}

pub fn after_ms(now: u64, ms: u64) -> (t: u64)
    ensures
        t == later(now, ms),
{
    now.saturating_add(ms)
}

/// The sum of the distances along the axes.
pub open spec fn manhattan(a: IVec3, b: IVec3) -> int {
    abs(a.x - b.x) + abs(a.y - b.y) + abs(a.z - b.z)
}

pub open spec fn abs(n: int) -> int {
    if n < 0 {
        -n
    } else {
        n
    }
}

fn distance_along(a: i32, b: i32) -> (d: i64)
    ensures
        d == abs(a - b),
        0 <= d <= 0xffff_ffff,
{
    if a >= b {
        a as i64 - b as i64
    } else {
        b as i64 - a as i64
    }
}

pub fn manhattan_distance(a: IVec3, b: IVec3) -> (d: i64)
    ensures
        d == manhattan(a, b),
{
    distance_along(a.x, b.x) + distance_along(a.y, b.y) + distance_along(a.z, b.z)
}

/// Distance counts the steps along the axes: it is zero for one place only, the same both ways, and
/// one for the six neighbours.
pub proof fn distance_counts_steps(a: IVec3, b: IVec3, c: IVec3)
    ensures
        manhattan(a, b) == 0 <==> a == b,
        manhattan(a, b) == manhattan(b, a),
        manhattan(a, c) <= manhattan(a, b) + manhattan(b, c),
        a.x < i32::MAX ==> manhattan(a, IVec3 { x: (a.x + 1) as i32, y: a.y, z: a.z }) == 1,
        a.y < i32::MAX ==> manhattan(a, IVec3 { x: a.x, y: (a.y + 1) as i32, z: a.z }) == 1,
        a.z < i32::MAX ==> manhattan(a, IVec3 { x: a.x, y: a.y, z: (a.z + 1) as i32 }) == 1,
{
}

/// A later time is so many milliseconds later, or the last time that there is.
pub proof fn later_times_are_later(now: u64, ms: u64)
    ensures
        later(now, ms) >= now,
        now + ms <= u64::MAX ==> later(now, ms) == now + ms,
        now + ms > u64::MAX ==> later(now, ms) == u64::MAX,
{
}

/// A number is finite exactly where its pattern, without the sign, is below that of infinity.
pub proof fn finite_numbers_are_below_infinity(bits: u32)
    ensures
        finite_bits(bits) <==> bits % 0x8000_0000 < 0x7f80_0000,
        magnitude_bits(bits) == bits % 0x8000_0000,
{
    let q = bits as int / 0x80_0000;
    let r = bits as int % 0x80_0000;
    assert(bits as int == q * 0x80_0000 + r);
    assert(q % 256 == q || q % 256 == q - 256);
    assert(bits as int % 0x8000_0000 == (q % 256) * 0x80_0000 + r);
}

} // verus!
