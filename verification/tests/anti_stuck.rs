//! Getting unstuck.

use luanti_proto_bot::game::navigation::{AntiStuck, Measurements, RecoveryDirective};
use luanti_proto_bot::types::Vec3;
use std::f32::consts::PI;

fn pos(x: f32, z: f32) -> Vec3 {
    Vec3 { x: x.to_bits(), y: 0, z: z.to_bits() }
}

fn distance(a: Vec3, b: Vec3) -> f32 {
    let dx = f32::from_bits(a.x) - f32::from_bits(b.x);
    let dz = f32::from_bits(a.z) - f32::from_bits(b.z);
    (dx * dx + dz * dz).sqrt()
}

/// Measures a step as a driver of the library does.
fn measure(s: &AntiStuck, position: Vec3, target: Option<Vec3>, yaw: f32, dt: f32) -> Measurements {
    let target_distance = target.map(|t| distance(position, t));
    Measurements {
        target_jumped: match (s.target, target) {
            (Some(a), Some(b)) => distance(a, b) > 20.0,
            _ => false,
        },
        target_distance: target_distance.map(f32::to_bits),
        moved: s.anchor.is_some_and(|a| distance(a, position) >= 1.5),
        approached: match (s.best_target_distance, target_distance) {
            (Some(best), Some(current)) => f32::from_bits(best) - current >= 1.5,
            _ => false,
        },
        stalled_for: (f32::from_bits(s.stalled_for) + dt).to_bits(),
        recovery_remaining: (f32::from_bits(s.recovery_remaining) - dt).max(0.0).to_bits(),
        turned: (
            (yaw + PI * 0.5).to_bits(),
            (yaw - PI * 0.5).to_bits(),
            (yaw + PI).to_bits(),
        ),
    }
}

fn step(
    s: &mut AntiStuck,
    position: Vec3,
    target: Option<Vec3>,
    moving: bool,
    yaw: f32,
    jump: bool,
    dt: f32,
) -> RecoveryDirective {
    let m = measure(s, position, target, yaw, dt);
    s.adjust(position, target, moving, yaw.to_bits(), jump, dt.to_bits(), m)
}

#[test]
fn stationary_movement_enters_side_recovery_without_jumping() {
    let mut anti_stuck = AntiStuck::default();
    let target = Some(pos(100.0, 0.0));
    for _ in 0..7 {
        let directive = step(&mut anti_stuck, pos(0.0, 0.0), target, true, 0.0, true, 0.2);
        assert!(!directive.recovering);
    }
    let directive = step(&mut anti_stuck, pos(0.0, 0.0), target, true, 0.0, true, 0.2);
    assert!(directive.recovering);
    assert!(!directive.jump);
    assert!((f32::from_bits(directive.yaw) - PI * 0.5).abs() < 0.001);
}

#[test]
fn real_progress_resets_recovery_attempts() {
    let mut anti_stuck = AntiStuck::default();
    let target = Some(pos(100.0, 0.0));
    for _ in 0..8 {
        step(&mut anti_stuck, pos(0.0, 0.0), target, true, 0.0, true, 0.2);
    }
    for _ in 0..6 {
        step(&mut anti_stuck, pos(0.0, 0.0), target, true, 0.0, true, 0.2);
    }
    let directive = step(&mut anti_stuck, pos(2.0, 0.0), target, true, 0.0, true, 0.2);
    assert!(!directive.recovering);
    assert_eq!(directive.attempts, 0);
}

#[test]
fn sideways_wall_sliding_is_not_goal_progress() {
    let mut anti_stuck = AntiStuck::default();
    let target = Some(pos(100.0, 0.0));
    let mut recovering = false;
    for tick in 0..8 {
        // Plenty of displacement, but all of it is perpendicular to the goal.
        let directive = step(
            &mut anti_stuck,
            pos(0.0, tick as f32 * 2.0),
            target,
            true,
            0.0,
            false,
            0.2,
        );
        recovering = directive.recovering;
    }
    assert!(recovering);
}

#[test]
fn returning_from_a_detour_does_not_erase_recovery_history() {
    let mut anti_stuck = AntiStuck::default();
    let target = Some(pos(100.0, 0.0));
    for _ in 0..8 {
        step(&mut anti_stuck, pos(0.0, 0.0), target, true, 0.0, false, 0.2);
    }

    let mut attempts = 1;
    for tick in 0..30 {
        let position = if tick < 6 { pos(0.0, 10.0) } else { pos(0.0, 0.0) };
        let directive = step(&mut anti_stuck, position, target, true, 0.0, false, 0.2);
        attempts = attempts.max(directive.attempts);
        if attempts >= 2 {
            break;
        }
    }
    assert_eq!(attempts, 2);
}

#[test]
fn repeated_stalls_eventually_give_up() {
    let mut anti_stuck = AntiStuck::default();
    let target = Some(pos(100.0, 0.0));
    let mut gave_up = false;
    for _ in 0..80 {
        let directive = step(&mut anti_stuck, pos(0.0, 0.0), target, true, 0.0, true, 0.2);
        gave_up |= directive.give_up;
        if gave_up {
            break;
        }
    }
    assert!(gave_up);
}

#[test]
fn dynamic_target_progress_uses_actual_displacement() {
    let mut anti_stuck = AntiStuck::default();
    for tick in 0..24 {
        let directive = step(
            &mut anti_stuck,
            pos(tick as f32 * 2.0, 0.0),
            None,
            true,
            0.0,
            false,
            0.2,
        );
        assert!(!directive.recovering);
        assert!(!directive.give_up);
    }
}

#[test]
fn recovery_heading_stays_fixed_when_desired_yaw_changes() {
    let mut anti_stuck = AntiStuck::default();
    let target = Some(pos(100.0, 0.0));
    for _ in 0..8 {
        step(&mut anti_stuck, pos(0.0, 0.0), target, true, 0.0, false, 0.2);
    }
    let directive = step(&mut anti_stuck, pos(0.0, 0.0), target, true, PI * 0.4, false, 0.2);
    assert!(directive.recovering);
    assert!((f32::from_bits(directive.yaw) - PI * 0.5).abs() < 0.001);
}

#[test]
fn no_more_than_three_attempts_are_made() {
    let mut anti_stuck = AntiStuck::default();
    let target = Some(pos(100.0, 0.0));
    for _ in 0..80 {
        let directive = step(&mut anti_stuck, pos(0.0, 0.0), target, true, 0.0, true, 0.2);
        assert!(directive.attempts <= 3);
        assert!(anti_stuck.recovery_attempts() <= 3);
        if directive.give_up {
            assert_eq!(directive.attempts, 3);
            break;
        }
    }
    assert_eq!(anti_stuck.stalled_for(), 0);
}

#[test]
fn standing_still_on_purpose_is_forgotten() {
    let mut anti_stuck = AntiStuck::default();
    for _ in 0..5 {
        step(&mut anti_stuck, pos(0.0, 0.0), None, true, 0.0, true, 0.2);
    }
    assert!(f32::from_bits(anti_stuck.stalled_for()) > 0.9);
    let directive = step(&mut anti_stuck, pos(0.0, 0.0), None, false, 1.0, true, 0.2);
    assert!(directive.jump && !directive.recovering);
    assert_eq!(anti_stuck, AntiStuck::default());
}
