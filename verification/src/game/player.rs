//! The player's state and the movement parameters of the server.

use crate::types::{
    finite_bits, finite_numbers_are_below_infinity, is_finite_bits, magnitude_bits, IVec3, Vec3,
};
use vstd::prelude::*;

verus! {

/// The player as the bot simulates it. Numbers in single precision are bit patterns.
#[derive(Clone, Copy, Debug, PartialEq, Eq, Structural)]
pub struct PlayerState {
    pub pos: Vec3,
    pub speed: Vec3,
    pub pitch: u32,
    pub yaw: u32,
    pub movement_speed: u32,
    pub movement_dir: u32,
    pub key_pressed: u32,
    pub fov: u32,
    pub wanted_range: u32,
    pub camera_inverted: bool,
}

/// A field of view of 1.2.
pub const DEFAULT_FOV: u32 = 0x3f99_999a;

/// A view range of 128.
pub const DEFAULT_WANTED_RANGE: u32 = 0x4300_0000;

impl Default for PlayerState {
    fn default() -> (s: Self)
        ensures
            s == (PlayerState {
                pos: Vec3 { x: 0, y: 0, z: 0 },
                speed: Vec3 { x: 0, y: 0, z: 0 },
                pitch: 0,
                yaw: 0,
                movement_speed: 0,
                movement_dir: 0,
                key_pressed: 0,
                fov: DEFAULT_FOV,
                wanted_range: DEFAULT_WANTED_RANGE,
                camera_inverted: false,
            }),
    {
        PlayerState {
            pos: Vec3 { x: 0, y: 0, z: 0 },
            speed: Vec3 { x: 0, y: 0, z: 0 },
            pitch: 0,
            yaw: 0,
            movement_speed: 0,
            movement_dir: 0,
            key_pressed: 0,
            fov: DEFAULT_FOV,
            wanted_range: DEFAULT_WANTED_RANGE,
            camera_inverted: false,
        }
    }
}

/// The angles that a player turns to, as single precision bit patterns.
#[derive(Clone, Copy, Debug, PartialEq, Eq, Structural)]
pub struct Turn {
    pub pitch: u32,
    pub yaw: u32,
}

/// The player turned; nothing else of it changes.
pub open spec fn turned(state: PlayerState, turn: Turn) -> PlayerState {
    PlayerState { pitch: turn.pitch, yaw: turn.yaw, ..state }
}

impl PlayerState {
    /// Turns the player.
    pub fn turn(&mut self, turn: Turn)
        ensures
            *final(self) == turned(*old(self), turn),
    {
        self.pitch = turn.pitch;
        self.yaw = turn.yaw;
    }
}

/// The fields of a [`PlayerState`] in the units of the wire, as the caller's
/// floating point arithmetic rounds them: positions, speeds and angles in
/// hundredths, the field of view in eightieths, the range in blocks.
#[derive(Debug)]
pub struct WireFields {
    pub pos: IVec3,
    pub speed: IVec3,
    pub pitch: i32,
    pub yaw: i32,
    pub fov: u8,
    pub wanted_range: u8,
    /// The state in words, for messages.
    pub summary: String,
}

/// The bit pattern of 500000, the largest coordinate that is sent.
pub const MAX_POSITION_BITS: u32 = 0x48f4_2400;

/// The bit pattern of 10000, the largest speed that is sent.
pub const MAX_SPEED_BITS: u32 = 0x461c_4000;

/// A finite number whose magnitude is at most that of `limit`.
pub open spec fn bounded_bits(bits: u32, limit: u32) -> bool {
    finite_bits(bits) && magnitude_bits(bits) <= limit
}

pub open spec fn bounded_vec(v: Vec3, limit: u32) -> bool {
    bounded_bits(v.x, limit) && bounded_bits(v.y, limit) && bounded_bits(v.z, limit)
}

/// A state that may be sent: every number is finite, and position and speed are
/// within their limits.
pub open spec fn sendable(s: PlayerState) -> bool {
    &&& bounded_vec(s.pos, MAX_POSITION_BITS)
    &&& bounded_vec(s.speed, MAX_SPEED_BITS)
    &&& finite_bits(s.pitch)
    &&& finite_bits(s.yaw)
    &&& finite_bits(s.movement_speed)
    &&& finite_bits(s.movement_dir)
    &&& finite_bits(s.fov)
    &&& finite_bits(s.wanted_range)
}

fn is_bounded(bits: u32, limit: u32) -> (bounded: bool)
    ensures
        bounded == bounded_bits(bits, limit),
{
    is_finite_bits(bits) && bits % 0x8000_0000 <= limit
}

fn is_bounded_vec(v: Vec3, limit: u32) -> (bounded: bool)
    ensures
        bounded == bounded_vec(v, limit),
{
    is_bounded(v.x, limit) && is_bounded(v.y, limit) && is_bounded(v.z, limit)
}

/// Whether a state may be sent.
pub fn is_sendable(s: &PlayerState) -> (ok: bool)
    ensures
        ok == sendable(*s),
{
    is_bounded_vec(s.pos, MAX_POSITION_BITS) && is_bounded_vec(s.speed, MAX_SPEED_BITS)
        && is_finite_bits(s.pitch) && is_finite_bits(s.yaw) && is_finite_bits(s.movement_speed)
        && is_finite_bits(s.movement_dir) && is_finite_bits(s.fov) && is_finite_bits(
        s.wanted_range,
    )
}

/// The movement parameters that the server announces, as single precision bit patterns.
#[derive(Clone, Copy, Debug, PartialEq, Eq, Structural)]
pub struct MovementSettings {
    pub acceleration_default: u32,
    pub acceleration_air: u32,
    pub acceleration_fast: u32,
    pub speed_walk: u32,
    pub speed_crouch: u32,
    pub speed_fast: u32,
    pub speed_climb: u32,
    pub speed_jump: u32,
    pub liquid_fluidity: u32,
    pub liquid_fluidity_smooth: u32,
    pub liquid_sink: u32,
    pub gravity: u32,
}

/// The parameters that hold until the server announces others, among them a walking
/// speed of 4, a jump speed of 6.5 and a gravity of 9.81.
pub open spec fn standard_movement() -> MovementSettings {
    MovementSettings {
        acceleration_default: 0x4040_0000,
        acceleration_air: 0x4000_0000,
        acceleration_fast: 0x4120_0000,
        speed_walk: 0x4080_0000,
        speed_crouch: 0x3fac_cccd,
        speed_fast: 0x41a0_0000,
        speed_climb: 0x4040_0000,
        speed_jump: 0x40d0_0000,
        liquid_fluidity: 0x3f80_0000,
        liquid_fluidity_smooth: 0x3f00_0000,
        liquid_sink: 0x4120_0000,
        gravity: 0x411c_f5c3,
    }
}

impl Default for MovementSettings {
    fn default() -> (m: Self)
        ensures
            m == standard_movement(),
    {
        MovementSettings {
            acceleration_default: 0x4040_0000,
            acceleration_air: 0x4000_0000,
            acceleration_fast: 0x4120_0000,
            speed_walk: 0x4080_0000,
            speed_crouch: 0x3fac_cccd,
            speed_fast: 0x41a0_0000,
            speed_climb: 0x4040_0000,
            speed_jump: 0x40d0_0000,
            liquid_fluidity: 0x3f80_0000,
            liquid_fluidity_smooth: 0x3f00_0000,
            liquid_sink: 0x4120_0000,
            gravity: 0x411c_f5c3,
        }
    }
}

/// A state is sent exactly where its position is within 500000 and its speed within 10000 along each
/// axis, whatever the sign, and its other numbers are finite.
pub proof fn wild_states_are_not_sent(s: PlayerState)
    ensures
        sendable(s) <==> {
            &&& s.pos.x % 0x8000_0000 <= 0x48f4_2400
            &&& s.pos.y % 0x8000_0000 <= 0x48f4_2400
            &&& s.pos.z % 0x8000_0000 <= 0x48f4_2400
            &&& s.speed.x % 0x8000_0000 <= 0x461c_4000
            &&& s.speed.y % 0x8000_0000 <= 0x461c_4000
            &&& s.speed.z % 0x8000_0000 <= 0x461c_4000
            &&& s.pitch % 0x8000_0000 < 0x7f80_0000
            &&& s.yaw % 0x8000_0000 < 0x7f80_0000
            &&& s.movement_speed % 0x8000_0000 < 0x7f80_0000
            &&& s.movement_dir % 0x8000_0000 < 0x7f80_0000
            &&& s.fov % 0x8000_0000 < 0x7f80_0000
            &&& s.wanted_range % 0x8000_0000 < 0x7f80_0000
        },
{
    bounded_below(s.pos.x, 0x48f4_2400);
    bounded_below(s.pos.y, 0x48f4_2400);
    bounded_below(s.pos.z, 0x48f4_2400);
    bounded_below(s.speed.x, 0x461c_4000);
    bounded_below(s.speed.y, 0x461c_4000);
    bounded_below(s.speed.z, 0x461c_4000);
    bounded_below(s.pitch, 0);
    bounded_below(s.yaw, 0);
    bounded_below(s.movement_speed, 0);
    bounded_below(s.movement_dir, 0);
    bounded_below(s.fov, 0);
    bounded_below(s.wanted_range, 0);
    assert(sendable(s) == {
        &&& bounded_bits(s.pos.x, 0x48f4_2400) && bounded_bits(s.pos.y, 0x48f4_2400)
        &&& bounded_bits(s.pos.z, 0x48f4_2400) && bounded_bits(s.speed.x, 0x461c_4000)
        &&& bounded_bits(s.speed.y, 0x461c_4000) && bounded_bits(s.speed.z, 0x461c_4000)
        &&& finite_bits(s.pitch) && finite_bits(s.yaw) && finite_bits(s.movement_speed)
        &&& finite_bits(s.movement_dir) && finite_bits(s.fov) && finite_bits(s.wanted_range)
    });
}

proof fn bounded_below(bits: u32, limit: u32)
    requires
        limit < 0x7f80_0000,
    ensures
        bounded_bits(bits, limit) <==> bits % 0x8000_0000 <= limit,
        finite_bits(bits) <==> bits % 0x8000_0000 < 0x7f80_0000,
{
    finite_numbers_are_below_infinity(bits);
}

/// A turn changes the two angles and nothing else.
pub proof fn turns_change_angles_only(s: PlayerState, turn: Turn)
    ensures
        turned(s, turn).pitch == turn.pitch,
        turned(s, turn).yaw == turn.yaw,
        turned(s, turn).pos == s.pos && turned(s, turn).speed == s.speed,
        turned(s, turn).key_pressed == s.key_pressed,
        turned(s, turn).fov == s.fov && turned(s, turn).wanted_range == s.wanted_range,
        turned(s, turn).movement_speed == s.movement_speed && turned(s, turn).movement_dir
            == s.movement_dir,
{
}

/// Until the server says otherwise players move as the game's own settings say: three, two and ten
/// nodes per second squared of acceleration; four nodes per second walking, twenty fast, three
/// climbing and six and a half jumping.
pub proof fn standard_movement_is_the_games_own()
    ensures
        ({
            let m = standard_movement();
            &&& m.acceleration_default == 0x4040_0000 && m.acceleration_air == 0x4000_0000
            &&& m.acceleration_fast == 0x4120_0000
            &&& m.speed_walk == 0x4080_0000 && m.speed_crouch == 0x3fac_cccd
            &&& m.speed_fast == 0x41a0_0000 && m.speed_climb == 0x4040_0000
            &&& m.speed_jump == 0x40d0_0000
            &&& m.liquid_fluidity == 0x3f80_0000 && m.liquid_fluidity_smooth == 0x3f00_0000
            &&& m.liquid_sink == 0x4120_0000 && m.gravity == 0x411c_f5c3
        }),
{
}

} // verus!
