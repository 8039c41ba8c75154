//! What a step of the player's body decides.

use luanti_proto_bot::game::physics::{
    begin_step, choose_landing, choose_lift, choose_slide, should_jump_over, Landing, Lift, Slide,
    Space, Start,
};

#[test]
fn steps_begin_in_free_places() {
    assert_eq!(begin_step(Space::Free, false), Start::Here);
    assert_eq!(begin_step(Space::Colliding, true), Start::Beside);
    assert_eq!(begin_step(Space::Colliding, false), Start::Nowhere);
    assert_eq!(begin_step(Space::Unloaded, true), Start::Nowhere);
}

#[test]
fn jumps_need_ground() {
    assert_eq!(choose_lift(true, true, true), Lift::Jump);
    assert_eq!(choose_lift(false, true, false), Lift::Rest);
    assert_eq!(choose_lift(false, true, true), Lift::Fall);
    assert_eq!(choose_lift(true, false, false), Lift::Fall);
}

#[test]
fn low_nodes_are_stepped_on() {
    let node = Some(Space::Colliding);
    assert_eq!(choose_slide(None, true, false), Slide::On);
    assert_eq!(choose_slide(node, true, true), Slide::Up);
    assert_eq!(choose_slide(node, true, false), Slide::Halt);
    assert_eq!(choose_slide(node, false, true), Slide::Halt);
    assert_eq!(choose_slide(Some(Space::Unloaded), true, true), Slide::Halt);
}

#[test]
fn only_nodes_are_jumped_over() {
    let node = Some(Space::Colliding);
    assert!(should_jump_over(true, true, true, false, node, None));
    assert!(should_jump_over(true, true, true, false, None, node));
    assert!(!should_jump_over(true, true, true, false, Some(Space::Unloaded), None));
    assert!(!should_jump_over(true, true, false, false, node, node));
    assert!(!should_jump_over(true, false, true, false, node, node));
    assert!(!should_jump_over(false, true, true, false, node, node));
    assert!(!should_jump_over(true, true, true, true, node, node));
}

#[test]
fn falling_ends_on_the_ground() {
    assert_eq!(choose_landing(true, false, true), Landing::Bumped);
    assert_eq!(choose_landing(false, false, true), Landing::Grounded);
    assert_eq!(choose_landing(false, true, true), Landing::Airborne);
    assert_eq!(choose_landing(false, false, false), Landing::Airborne);
}
