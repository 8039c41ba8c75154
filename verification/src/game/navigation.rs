//! Getting unstuck: noticing that the bot makes no progress, turning away for a
//! while, and giving up in the end.
//!
//! Distances and sums are floating point and are computed by the caller, which
//! hands them in as [`Measurements`]. Numbers are single precision bit patterns.

use crate::types::{finite_bits, is_finite_bits, Vec3};
use vstd::prelude::*;

verus! {

/// One and a half seconds without progress count as being stuck.
pub const STALL_SECONDS: u32 = 0x3fc0_0000;

/// Turning away lasts one second.
pub const RECOVERY_SECONDS: u32 = 0x3f80_0000;

/// So often the bot turns away before it gives up.
pub const MAX_RECOVERY_ATTEMPTS: u8 = 3;

/// What the bot is to do.
#[derive(Clone, Copy, Debug, PartialEq, Eq, Structural)]
pub struct RecoveryDirective {
    pub yaw: u32,
    pub jump: bool,
    pub recovering: bool,
    pub attempts: u8,
    pub give_up: bool,
}

/// What is remembered of the bot's progress.
#[derive(Clone, Copy, Debug, PartialEq, Eq)]
pub struct AntiStuck {
    /// Where progress was last seen.
    pub anchor: Option<Vec3>,
    /// The least distance to the target that counted as progress.
    pub best_target_distance: Option<u32>,
    pub target: Option<Vec3>,
    /// Seconds without progress.
    pub stalled_for: u32,
    /// Seconds for which the bot still turns away.
    pub recovery_remaining: u32,
    pub recovery_yaw: Option<u32>,
    pub recovery_attempts: u8,
}

/// What the caller measures for one step.
#[derive(Clone, Copy, Debug, PartialEq, Eq)]
pub struct Measurements {
    /// The target is far from where it was; asked where there was one and is one.
    pub target_jumped: bool,
    /// The distance to the target, where there is one.
    pub target_distance: Option<u32>,
    /// The bot is far enough from the anchor to count as having moved.
    pub moved: bool,
    /// The bot is nearer to the target than the least distance, by enough to count.
    pub approached: bool,
    /// The seconds without progress, with this step added.
    pub stalled_for: u32,
    /// The seconds for which the bot still turns away, less this step, at least zero.
    pub recovery_remaining: u32,
    /// The wanted heading turned to the left, to the right, and around.
    pub turned: (u32, u32, u32),
}

/// Nothing is remembered.
pub open spec fn fresh() -> AntiStuck {
    AntiStuck {
        anchor: None,
        best_target_distance: None,
        target: None,
        stalled_for: 0,
        recovery_remaining: 0,
        recovery_yaw: None,
        recovery_attempts: 0,
    }
}

/// A number greater than zero, or an infinity.
pub open spec fn above_zero(bits: u32) -> bool {
    0 < bits <= 0x7f80_0000
}

/// The target has come, gone, or moved far.
pub open spec fn target_changed(
    previous: Option<Vec3>,
    current: Option<Vec3>,
    jumped: bool,
) -> bool {
    match (previous, current) {
        (Some(_), Some(_)) => jumped,
        (None, None) => false,
        _ => true,
    }
}

/// Go on as wanted.
pub open spec fn go_on(yaw: u32, jump: bool) -> RecoveryDirective {
    RecoveryDirective { yaw, jump, recovering: false, attempts: 0, give_up: false }
}

/// The heading of an attempt to get unstuck: left first, then right, then back.
pub open spec fn recovery_heading(attempt: int, turned: (u32, u32, u32)) -> u32 {
    if attempt == 1 {
        turned.0
    } else if attempt == 2 {
        turned.1
    } else {
        turned.2
    }
}

/// What is remembered and done while the bot moves: first it is settled whether
/// the target is still the same, then whether the bot is turning away, has made
/// progress, or stands still for too long.
pub open spec fn adjusted(
    s: AntiStuck,
    position: Vec3,
    target: Option<Vec3>,
    desired_yaw: u32,
    jump: bool,
    dt: u32,
    m: Measurements,
) -> (AntiStuck, RecoveryDirective) {
    let changed = target_changed(s.target, target, m.target_jumped);
    let kept = if changed { fresh() } else { s };
    let known = AntiStuck {
        target,
        anchor: Some(
            match kept.anchor {
                Some(a) => a,
                None => position,
            },
        ),
        best_target_distance: match kept.best_target_distance {
            Some(d) => Some(d),
            None => m.target_distance,
        },
        ..kept
    };
    if above_zero(kept.recovery_remaining) {
        let over = !above_zero(m.recovery_remaining);
        (
            AntiStuck {
                recovery_remaining: m.recovery_remaining,
                anchor: if over {
                    Some(position)
                } else {
                    known.anchor
                },
                stalled_for: if over {
                    0
                } else {
                    known.stalled_for
                },
                recovery_yaw: if over {
                    None
                } else {
                    known.recovery_yaw
                },
                ..known
            },
            RecoveryDirective {
                yaw: match kept.recovery_yaw {
                    Some(yaw) => yaw,
                    None => desired_yaw,
                },
                jump: false,
                recovering: true,
                attempts: kept.recovery_attempts,
                give_up: false,
            },
        )
    } else {
        let moved = kept.anchor is Some && m.moved;
        let approached = match (known.best_target_distance, m.target_distance) {
            (Some(_), Some(_)) => kept.best_target_distance is Some && m.approached,
            (None, None) => true,
            _ => false,
        };
        let stalled = if changed { dt } else { m.stalled_for };
        if moved && approached {
            (
                AntiStuck {
                    anchor: Some(position),
                    best_target_distance: m.target_distance,
                    stalled_for: 0,
                    recovery_remaining: 0,
                    recovery_yaw: None,
                    recovery_attempts: 0,
                    ..known
                },
                go_on(desired_yaw, jump),
            )
        } else if stalled < STALL_SECONDS {
            (AntiStuck { stalled_for: stalled, ..known }, go_on(desired_yaw, jump))
        } else if kept.recovery_attempts >= MAX_RECOVERY_ATTEMPTS {
            (
                fresh(),
                RecoveryDirective {
                    yaw: desired_yaw,
                    jump: false,
                    recovering: false,
                    attempts: kept.recovery_attempts,
                    give_up: true,
                },
            )
        } else {
            let attempt = (kept.recovery_attempts + 1) as u8;
            let heading = recovery_heading(attempt as int, m.turned);
            (
                AntiStuck {
                    anchor: Some(position),
                    stalled_for: 0,
                    recovery_remaining: RECOVERY_SECONDS,
                    recovery_yaw: Some(heading),
                    recovery_attempts: attempt,
                    ..known
                },
                RecoveryDirective {
                    yaw: heading,
                    jump: false,
                    recovering: true,
                    attempts: attempt,
                    give_up: false,
                },
            )
        }
    }
}

/// A step can be judged: the bot moves, and its position and the step's length are
/// usable numbers.
pub open spec fn judged(position: Vec3, moving: bool, dt: u32) -> bool {
    moving && position.finite() && finite_bits(dt) && above_zero(dt)
}

fn is_above_zero(bits: u32) -> (yes: bool)
    ensures
        yes == above_zero(bits),
{
    0 < bits && bits <= 0x7f80_0000
}

impl Default for AntiStuck {
    fn default() -> (s: Self)
        ensures
            s == fresh(),
    {
        AntiStuck {
            anchor: None,
            best_target_distance: None,
            target: None,
            stalled_for: 0,
            recovery_remaining: 0,
            recovery_yaw: None,
            recovery_attempts: 0,
        }
    }
}

impl AntiStuck {
    pub fn reset(&mut self)
        ensures
            *final(self) == fresh(),
    {
        *self = AntiStuck::default();
    }

    pub fn stalled_for(&self) -> (seconds: u32)
        ensures
            seconds == self.stalled_for,
    {
        self.stalled_for
    }

    pub fn recovery_attempts(&self) -> (attempts: u8)
        ensures
            attempts == self.recovery_attempts,
    {
        self.recovery_attempts
    }

    /// Takes one step: says which way to head, and whether to jump or to give up.
    pub fn adjust(
        &mut self,
        position: Vec3,
        target: Option<Vec3>,
        moving: bool,
        desired_yaw: u32,
        jump: bool,
        dt: u32,
        m: Measurements,
    ) -> (directive: RecoveryDirective)
        ensures
            (*final(self), directive) == (if judged(position, moving, dt) {
                adjusted(*old(self), position, target, desired_yaw, jump, dt, m)
            } else {
                (fresh(), go_on(desired_yaw, jump))
            }),
    {
        let direct = RecoveryDirective {
            yaw: desired_yaw,
            jump,
            recovering: false,
            attempts: 0,
            give_up: false,
        };
        if !moving || !position.is_finite() || !is_finite_bits(dt) || !is_above_zero(dt) {
            self.reset();
            return direct;
        }
        let changed = match (self.target, target) {
            (Some(_), Some(_)) => m.target_jumped,
            (None, None) => false,
            _ => true,
        };
        if changed {
            self.reset();
        }
        self.target = target;
        let had_anchor = self.anchor.is_some();
        if !had_anchor {
            self.anchor = Some(position);
        }
        let had_best = self.best_target_distance.is_some();
        if !had_best {
            self.best_target_distance = m.target_distance;
        }
        if is_above_zero(self.recovery_remaining) {
            let yaw: u32 = match self.recovery_yaw {
                Some(yaw) => yaw,
                None => desired_yaw,
            };
            self.recovery_remaining = m.recovery_remaining;
            if !is_above_zero(self.recovery_remaining) {
                // A detour may lead sideways or backward: progress towards the goal
                // is measured again from its end.
                self.anchor = Some(position);
                self.stalled_for = 0;
                self.recovery_yaw = None;
            }
            return RecoveryDirective {
                yaw,
                jump: false,
                recovering: true,
                attempts: self.recovery_attempts,
                give_up: false,
            };
        }
        let moved = had_anchor && m.moved;
        let approached = match (self.best_target_distance, m.target_distance) {
            (Some(_), Some(_)) => had_best && m.approached,
            // Movement without a target can only be judged by its extent.
            (None, None) => true,
            _ => false,
        };
        if moved && approached {
            self.anchor = Some(position);
            self.best_target_distance = m.target_distance;
            self.stalled_for = 0;
            self.recovery_remaining = 0;
            self.recovery_yaw = None;
            self.recovery_attempts = 0;
            return direct;
        }
        self.stalled_for = if changed { dt } else { m.stalled_for };
        if self.stalled_for < STALL_SECONDS {
            return direct;
        }
        if self.recovery_attempts >= MAX_RECOVERY_ATTEMPTS {
            let attempts: u8 = self.recovery_attempts;
            self.reset();
            return RecoveryDirective {
                yaw: desired_yaw,
                jump: false,
                recovering: false,
                attempts,
                give_up: true,
            };
        }
        self.stalled_for = 0;
        self.anchor = Some(position);
        self.recovery_attempts = self.recovery_attempts + 1;
        self.recovery_remaining = RECOVERY_SECONDS;
        let heading: u32 = match self.recovery_attempts {
            1 => m.turned.0,
            2 => m.turned.1,
            _ => m.turned.2,
        };
        self.recovery_yaw = Some(heading);
        RecoveryDirective {
            yaw: heading,
            jump: false,
            recovering: true,
            attempts: self.recovery_attempts,
            give_up: false,
        }
    }
}

/// The bot turns away at most so often, gives up only after having done so, never
/// jumps meanwhile, and forgets everything once it has given up.
pub proof fn recovery_is_bounded(
    s: AntiStuck,
    position: Vec3,
    target: Option<Vec3>,
    desired_yaw: u32,
    jump: bool,
    dt: u32,
    m: Measurements,
)
    requires
        s.recovery_attempts <= MAX_RECOVERY_ATTEMPTS,
    ensures
        ({
            let (after, d) = adjusted(s, position, target, desired_yaw, jump, dt, m);
            &&& after.recovery_attempts <= MAX_RECOVERY_ATTEMPTS
            &&& d.attempts <= MAX_RECOVERY_ATTEMPTS
            &&& d.give_up ==> d.attempts == MAX_RECOVERY_ATTEMPTS && after == fresh()
            &&& d.recovering ==> !d.jump && !d.give_up
            &&& !d.recovering && !d.give_up ==> d == go_on(desired_yaw, jump)
        }),
{
}

/// While the bot turns away its heading is fixed, whatever heading is wanted.
pub proof fn recovery_heading_is_fixed(
    s: AntiStuck,
    heading: u32,
    position: Vec3,
    target: Option<Vec3>,
    desired_yaw: u32,
    jump: bool,
    dt: u32,
    m: Measurements,
)
    requires
        above_zero(s.recovery_remaining),
        s.recovery_yaw == Some(heading),
        !target_changed(s.target, target, m.target_jumped),
    ensures
        ({
            let (after, d) = adjusted(s, position, target, desired_yaw, jump, dt, m);
            &&& d.recovering
            &&& d.yaw == heading
            &&& d.attempts == s.recovery_attempts
            &&& above_zero(m.recovery_remaining) ==> after.recovery_yaw == Some(heading)
        }),
{
}

/// Progress towards the target makes the earlier attempts count no more; movement
/// that does not lead nearer to it does not.
pub proof fn only_progress_forgives(
    s: AntiStuck,
    position: Vec3,
    target: Option<Vec3>,
    desired_yaw: u32,
    jump: bool,
    dt: u32,
    m: Measurements,
)
    requires
        s.recovery_attempts > 0,
        target is Some && m.target_distance is Some,
        !target_changed(s.target, target, m.target_jumped),
        adjusted(s, position, target, desired_yaw, jump, dt, m).0.recovery_attempts == 0,
        !adjusted(s, position, target, desired_yaw, jump, dt, m).1.give_up,
    ensures
        m.moved && m.approached,
{
}

/// A bot that stands still for a second and a half turns away for a second: to the left the first
/// time, to the right the second time, around the third time. The fourth time it gives
/// up. Before the time is up it goes on as wanted.
pub proof fn standing_still_is_noticed(
    s: AntiStuck,
    position: Vec3,
    target: Option<Vec3>,
    desired_yaw: u32,
    jump: bool,
    dt: u32,
    m: Measurements,
)
    requires
        !target_changed(s.target, target, m.target_jumped),
        !above_zero(s.recovery_remaining),
        !m.moved,
    ensures
        ({
            let (after, d) = adjusted(s, position, target, desired_yaw, jump, dt, m);
            if m.stalled_for < 0x3fc0_0000 {
                &&& d.yaw == desired_yaw && d.jump == jump
                &&& !d.recovering && !d.give_up
                &&& after.stalled_for == m.stalled_for
                &&& after.recovery_attempts == s.recovery_attempts
                &&& after.anchor == match s.anchor {
                    Some(a) => Some(a),
                    None => Some(position),
                }
            } else if s.recovery_attempts >= 3 {
                &&& d.give_up && !d.recovering && !d.jump
                &&& d.attempts == s.recovery_attempts
                &&& after == fresh()
            } else {
                &&& d.recovering && !d.give_up && !d.jump
                &&& d.attempts == s.recovery_attempts + 1
                &&& after.recovery_attempts == s.recovery_attempts + 1
                &&& after.recovery_remaining == 0x3f80_0000
                &&& after.recovery_yaw == Some(d.yaw)
                &&& after.stalled_for == 0
                &&& after.anchor == Some(position)
                &&& d.yaw == if s.recovery_attempts == 0 {
                    m.turned.0
                } else if s.recovery_attempts == 1 {
                    m.turned.1
                } else {
                    m.turned.2
                }
            }
        }),
{
}

/// A bot that moves and comes nearer to its target is not stuck: it goes on as wanted, and the
/// place and the distance are remembered.
pub proof fn progress_is_remembered(
    s: AntiStuck,
    position: Vec3,
    target: Option<Vec3>,
    desired_yaw: u32,
    jump: bool,
    dt: u32,
    m: Measurements,
)
    requires
        !target_changed(s.target, target, m.target_jumped),
        !above_zero(s.recovery_remaining),
        s.anchor is Some,
        m.moved,
        m.target_distance is Some ==> s.best_target_distance is Some && m.approached,
        m.target_distance is None ==> s.best_target_distance is None,
    ensures
        ({
            let (after, d) = adjusted(s, position, target, desired_yaw, jump, dt, m);
            &&& d.yaw == desired_yaw && d.jump == jump && !d.recovering && !d.give_up
            &&& after.anchor == Some(position)
            &&& after.best_target_distance == m.target_distance
            &&& after.stalled_for == 0
            &&& after.recovery_attempts == 0
            &&& after.recovery_yaw is None
            &&& after.target == target
        }),
{
}

/// A turn lasts until its time is up; then the bot starts to be watched anew from where it is.
pub proof fn turns_come_to_an_end(
    s: AntiStuck,
    position: Vec3,
    target: Option<Vec3>,
    desired_yaw: u32,
    jump: bool,
    dt: u32,
    m: Measurements,
)
    requires
        !target_changed(s.target, target, m.target_jumped),
        above_zero(s.recovery_remaining),
    ensures
        ({
            let (after, d) = adjusted(s, position, target, desired_yaw, jump, dt, m);
            &&& d.recovering && !d.jump && !d.give_up
            &&& after.recovery_remaining == m.recovery_remaining
            &&& after.recovery_attempts == s.recovery_attempts
            &&& !above_zero(m.recovery_remaining) ==> after.anchor == Some(position)
                && after.stalled_for == 0 && after.recovery_yaw is None
            &&& above_zero(m.recovery_remaining) ==> after.recovery_yaw == s.recovery_yaw
                && after.stalled_for == s.stalled_for
        }),
{
}

/// Another target makes a new start: what was remembered counts no more.
pub proof fn new_targets_make_a_new_start(
    s: AntiStuck,
    position: Vec3,
    target: Option<Vec3>,
    desired_yaw: u32,
    jump: bool,
    dt: u32,
    m: Measurements,
)
    ensures
        target_changed(s.target, target, m.target_jumped) <==> (s.target is Some) != (
        target is Some) || (s.target is Some && target is Some && m.target_jumped),
        target_changed(s.target, target, m.target_jumped) ==> {
            let (after, d) = adjusted(s, position, target, desired_yaw, jump, dt, m);
            &&& after.target == target
            &&& after.anchor == Some(position)
            &&& after.best_target_distance == m.target_distance
            &&& !d.give_up
            &&& dt < 0x3fc0_0000 ==> !d.recovering && d.yaw == desired_yaw && d.jump == jump
                && after.stalled_for == dt && after.recovery_attempts == 0
            &&& dt >= 0x3fc0_0000 ==> d.recovering && d.yaw == m.turned.0
                && after.recovery_attempts == 1
        },
{
}

} // verus!
