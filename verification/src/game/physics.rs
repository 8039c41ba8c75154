//! What a step of the player's body decides. Where the body is, how fast it moves
//! and what it touches is floating point and is computed by the caller.

use vstd::prelude::*;

verus! {

/// What a place holds for the player's body.
#[derive(Clone, Copy, Debug, PartialEq, Eq, Structural)]
pub enum Space {
    Free,
    /// A node is in the way.
    Colliding,
    /// The place is not known yet.
    Unloaded,
}

/// How a step begins.
#[derive(Clone, Copy, Debug, PartialEq, Eq, Structural)]
pub enum Start {
    /// From where the body is.
    Here,
    /// From the free place next to the node that the body is stuck in.
    Beside,
    /// Not at all: the body stands still.
    Nowhere,
}

/// A body that is stuck in a node is put beside it; one that cannot be, or that is
/// where nothing is known, stands still.
pub open spec fn start_of(space: Space, free_beside: bool) -> Start {
    match space {
        Space::Free => Start::Here,
        Space::Colliding => if free_beside {
            Start::Beside
        } else {
            Start::Nowhere
        },
        Space::Unloaded => Start::Nowhere,
    }
}

/// Says how a step begins. `free_beside` says that there is a free place nearby.
pub fn begin_step(space: Space, free_beside: bool) -> (start: Start)
    ensures
        start == start_of(space, free_beside),
{
    match space {
        Space::Free => Start::Here,
        Space::Colliding => {
            if free_beside {
                Start::Beside
            } else {
                Start::Nowhere
            }
        },
        Space::Unloaded => Start::Nowhere,
    }
}

/// What becomes of the upward speed.
#[derive(Clone, Copy, Debug, PartialEq, Eq, Structural)]
pub enum Lift {
    Jump,
    Rest,
    Fall,
}

/// Only a body on the ground can jump; one that does not rise from it rests.
pub open spec fn lift_of(jump: bool, grounded: bool, rising: bool) -> Lift {
    if grounded && jump {
        Lift::Jump
    } else if grounded && !rising {
        Lift::Rest
    } else {
        Lift::Fall
    }
}

/// Says what becomes of the upward speed.
pub fn choose_lift(jump: bool, grounded: bool, rising: bool) -> (lift: Lift)
    ensures
        lift == lift_of(jump, grounded, rising),
{
    if jump && grounded {
        Lift::Jump
    } else if grounded && !rising {
        Lift::Rest
    } else {
        Lift::Fall
    }
}

/// What becomes of a move along a horizontal axis.
#[derive(Clone, Copy, Debug, PartialEq, Eq, Structural)]
pub enum Slide {
    /// It goes on.
    On,
    /// It goes up the step in its way.
    Up,
    /// It ends.
    Halt,
}

/// A move that nothing is in the way of goes on. A body on the ground goes up a
/// node that is low enough; everything else ends the move.
pub open spec fn slide_of(hit: Option<Space>, may_step: bool, low_enough: bool) -> Slide {
    match hit {
        None => Slide::On,
        Some(space) => if may_step && space == Space::Colliding && low_enough {
            Slide::Up
        } else {
            Slide::Halt
        },
    }
}

/// Says what becomes of a horizontal move. `low_enough` says that the body can step
/// on what is in its way.
pub fn choose_slide(hit: Option<Space>, may_step: bool, low_enough: bool) -> (slide: Slide)
    ensures
        slide == slide_of(hit, may_step, low_enough),
{
    match hit {
        None => Slide::On,
        Some(space) => {
            if may_step && space == Space::Colliding && low_enough {
                Slide::Up
            } else {
                Slide::Halt
            }
        },
    }
}

/// A node, and not the edge of what is known, was in the way.
pub open spec fn met_node(hit: Option<Space>) -> bool {
    hit == Some(Space::Colliding)
}

/// A body jumps by itself where a node is in its way on the ground.
pub open spec fn jumps_over(
    auto_jump: bool,
    forward: bool,
    grounded: bool,
    rising: bool,
    hit_x: Option<Space>,
    hit_z: Option<Space>,
) -> bool {
    auto_jump && forward && grounded && !rising && (met_node(hit_x) || met_node(hit_z))
}

fn is_node(hit: Option<Space>) -> (yes: bool)
    ensures
        yes == met_node(hit),
{
    match hit {
        Some(space) => space == Space::Colliding,
        None => false,
    }
}

/// Says whether a body jumps by itself.
pub fn should_jump_over(
    auto_jump: bool,
    forward: bool,
    grounded: bool,
    rising: bool,
    hit_x: Option<Space>,
    hit_z: Option<Space>,
) -> (yes: bool)
    ensures
        yes == jumps_over(auto_jump, forward, grounded, rising, hit_x, hit_z),
{
    auto_jump && forward && grounded && !rising && (is_node(hit_x) || is_node(hit_z))
}

/// What becomes of a vertical move.
#[derive(Clone, Copy, Debug, PartialEq, Eq, Structural)]
pub enum Landing {
    /// It goes on.
    Airborne,
    /// It ends where it is.
    Bumped,
    /// It ends on the ground just below.
    Grounded,
}

pub open spec fn landing_of(hit: bool, rising: bool, ground_below: bool) -> Landing {
    if hit {
        Landing::Bumped
    } else if !rising && ground_below {
        Landing::Grounded
    } else {
        Landing::Airborne
    }
}

/// Says what becomes of a vertical move.
pub fn choose_landing(hit: bool, rising: bool, ground_below: bool) -> (landing: Landing)
    ensures
        landing == landing_of(hit, rising, ground_below),
{
    if hit {
        Landing::Bumped
    } else if !rising && ground_below {
        Landing::Grounded
    } else {
        Landing::Airborne
    }
}

/// Nothing moves into what is not known: a step does not begin there, a move ends at
/// its edge, and the edge is nothing to jump over.
pub proof fn unknown_places_are_not_entered(
    free_beside: bool,
    may_step: bool,
    low_enough: bool,
    auto_jump: bool,
    forward: bool,
    grounded: bool,
    rising: bool,
)
    ensures
        start_of(Space::Unloaded, free_beside) == Start::Nowhere,
        slide_of(Some(Space::Unloaded), may_step, low_enough) == Slide::Halt,
        !jumps_over(
            auto_jump,
            forward,
            grounded,
            rising,
            Some(Space::Unloaded),
            Some(Space::Unloaded),
        ),
{
}

/// No upward speed comes from nothing: a body in the air neither jumps nor rests.
pub proof fn bodies_in_the_air_fall(jump: bool, rising: bool)
    ensures
        lift_of(jump, false, rising) == Lift::Fall,
{
}

/// A step begins where the body is, where that is free; where it collides, beside it, if there is a
/// free place; and otherwise not at all.
pub proof fn steps_begin_in_free_places(space: Space, free_beside: bool)
    ensures
        start_of(space, free_beside) == Start::Here <==> space == Space::Free,
        start_of(space, free_beside) == Start::Beside <==> space == Space::Colliding && free_beside,
        start_of(space, free_beside) == Start::Nowhere <==> space == Space::Unloaded || (space
            == Space::Colliding && !free_beside),
{
}

/// A body jumps only from the ground and only when told to; on the ground it rests unless it rises;
/// in the air it falls.
pub proof fn bodies_jump_from_the_ground(jump: bool, grounded: bool, rising: bool)
    ensures
        lift_of(jump, grounded, rising) == Lift::Jump <==> jump && grounded,
        lift_of(jump, grounded, rising) == Lift::Rest <==> grounded && !jump && !rising,
        !grounded ==> lift_of(jump, grounded, rising) == Lift::Fall,
        grounded && !jump && rising ==> lift_of(jump, grounded, rising) == Lift::Fall,
{
}

/// A move goes on where nothing is in the way; it goes up only where the body may step, what is in
/// the way is a node, and it is low enough; otherwise it halts.
pub proof fn moves_halt_at_what_is_in_the_way(
    hit: Option<Space>,
    may_step: bool,
    low_enough: bool,
)
    ensures
        slide_of(hit, may_step, low_enough) == Slide::On <==> hit is None,
        slide_of(hit, may_step, low_enough) == Slide::Up <==> hit == Some(Space::Colliding)
            && may_step && low_enough,
        slide_of(hit, may_step, low_enough) == Slide::Halt <==> hit is Some && !(hit == Some(
            Space::Colliding,
        ) && may_step && low_enough),
{
}

/// A body jumps by itself exactly where it walks forward on the ground against a node, may do so
/// and does not rise already.
pub proof fn bodies_jump_over_nodes(
    auto_jump: bool,
    forward: bool,
    grounded: bool,
    rising: bool,
    hit_x: Option<Space>,
    hit_z: Option<Space>,
)
    ensures
        jumps_over(auto_jump, forward, grounded, rising, hit_x, hit_z) <==> {
            &&& auto_jump && forward && grounded
            &&& !rising
            &&& hit_x == Some(Space::Colliding) || hit_z == Some(Space::Colliding)
        },
{
}

/// A vertical move that meets something bumps; one that does not ends on the ground where there is
/// ground below and the body does not rise.
pub proof fn bodies_land_on_the_ground(hit: bool, rising: bool, ground_below: bool)
    ensures
        landing_of(hit, rising, ground_below) == Landing::Bumped <==> hit,
        landing_of(hit, rising, ground_below) == Landing::Grounded <==> !hit && !rising
            && ground_below,
        landing_of(hit, rising, ground_below) == Landing::Airborne <==> !hit && (rising
            || !ground_below),
{
}

} // verus!
