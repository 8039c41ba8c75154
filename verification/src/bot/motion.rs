//! One step of the bot's motion: which points of a route are reached, where to head,
//! what to do on arrival, which keys to press, and when to give up.
//!
//! Distances and angles are floating point and are computed by the caller. Numbers
//! are single precision bit patterns.

use super::commands::{collect_task, mining_started};
use super::entities::{player_with_id, target_id};
use super::events::looked_for_target;
use super::navigation::{
    arrival_view, navigation_begun, navigation_failed, next_point, send_hunt_arrival_action,
    ArrivalAction, ArrivalView, GoalView, MoveGoal, NavigationView,
};
use super::runtime::{with_conn, Bot, BotView};
use super::tasks::mining::{MiningPhase, NativeMiningOrigin};
use crate::game::navigation::{
    above_zero, adjusted, fresh, go_on, judged, AntiStuck, Measurements, RecoveryDirective,
};
use crate::game::player::{sendable, PlayerState, WireFields};
use crate::network::connection::sent_unreliably;
use crate::network::outbound::{
    chat_sent, player_state_fields, playerpos_payload, OutboundError, OutboundErrorView,
};
use crate::network::protocol::{KEY_FORWARD, KEY_JUMP};
use crate::network::wire::be16;
use crate::session::SessionView;
use crate::text::dec;
use crate::types::{IVec3, Vec3};
use std::collections::VecDeque;
use vstd::prelude::*;
use vstd::string::*;

verus! {

/// Where the bot heads in a step.
#[derive(Clone, Copy, Debug)]
pub enum Heading {
    /// The next point of its goal.
    Point(Vec3),
    /// The player that it follows.
    Player(Vec3),
    Nowhere,
}

/// What the caller computes for a step.
pub struct StepFacts {
    /// The angles that the bot turns to.
    pub yaw: u32,
    pub pitch: u32,
    /// What the bot heads for is farther away than it should be.
    pub far: bool,
    /// What the bot heads for is higher than the bot can step.
    pub above: bool,
    /// What the bot heads for is not just overhead.
    pub apart: bool,
    /// The length of the step in seconds.
    pub dt: u32,
    pub measurements: Measurements,
}

/// What the bot does in a step.
#[derive(Clone, Copy, Debug, PartialEq, Eq, Structural)]
pub struct Steering {
    pub forward: bool,
    pub jump: bool,
    pub auto_jump: bool,
    pub speed: u32,
    pub yaw: u32,
    /// The bot is on the way to its goal.
    pub on_course: bool,
}

/// A bot that floats and has nowhere to go stays where the server put it.
pub open spec fn held_still(b: BotView, floating: bool) -> BotView {
    match b.last_server_pos {
        Some(pos) => if floating && !b.follow_enabled && b.move_goal is None {
            BotView {
                session: SessionView {
                    state: PlayerState {
                        pos,
                        speed: Vec3 { x: 0, y: 0, z: 0 },
                        ..b.session.state
                    },
                    ..b.session
                },
                ..b
            }
        } else {
            b
        },
        None => b,
    }
}

/// The bot is at its goal.
pub open spec fn arrived(b: BotView, goal: GoalView) -> BotView {
    BotView {
        move_goal: None,
        anti_stuck: fresh(),
        navigation: if goal.arrival_action is Some {
            b.navigation
        } else if b.follow_enabled {
            navigation_begun("following"@)
        } else {
            navigation_begun("idle"@)
        },
        ..b
    }
}

/// The points that are reached are passed one after another. `reached` says for each
/// point that is left whether it is reached. At the goal, what is to be done there
/// comes up.
pub open spec fn points_passed(b: BotView, reached: Seq<bool>) -> (BotView, Option<ArrivalView>)
    decreases reached.len(),
{
    match b.move_goal {
        Some(goal) => if reached.len() == 0 || !reached[0] {
            (b, None)
        } else if goal.waypoints.len() <= 1 {
            (arrived(b, goal), goal.arrival_action)
        } else {
            points_passed(
                BotView {
                    move_goal: Some(
                        GoalView { waypoints: goal.waypoints.drop_first(), ..goal },
                    ),
                    anti_stuck: fresh(),
                    ..b
                },
                reached.drop_first(),
            )
        },
        None => (b, None),
    }
}

/// The bot heads for its goal; without one, for the player that it follows, if that
/// player is in view.
pub open spec fn heading_of(b: BotView) -> Heading {
    match b.move_goal {
        Some(goal) => Heading::Point(next_point(goal)),
        None => match b.follow_target_id {
            Some(id) => match player_with_id(b.players, id) {
                Some(p) => if b.follow_enabled {
                    Heading::Player(p.pos)
                } else {
                    Heading::Nowhere
                },
                None => Heading::Nowhere,
            },
            None => Heading::Nowhere,
        },
    }
}

/// The bot has looked for whom it follows, unless it has a goal.
pub open spec fn headed(b: BotView) -> BotView {
    if b.move_goal is None && b.follow_enabled {
        looked_for_target(b)
    } else {
        b
    }
}

/// What is done on arrival has begun. `targets` are the nodes that are to be
/// collected, nearest first.
pub open spec fn arrival_started(
    b: BotView,
    action: ArrivalView,
    targets: Seq<Option<IVec3>>,
    now: u64,
) -> BotView {
    match action {
        ArrivalView::Collect { node, count, .. } => if b.mining is Some {
            BotView { navigation: navigation_failed(b.navigation, "mining_busy"@), ..b }
        } else {
            mining_started(
                BotView { navigation: navigation_begun("mining"@), ..b },
                collect_task(NativeMiningOrigin::ArrivalCollect, node, count, targets),
                now,
            )
        },
        ArrivalView::Hunt { hunt_id } => with_conn(
            BotView { navigation: navigation_begun("moving"@), ..b },
            chat_sent(b.session.conn, "/bot_hunt "@ + dec(hunt_id as int)),
        ),
    }
}

/// The keys for forward and jump that lead to where the bot heads.
pub open spec fn wanted_keys(heading: Heading, f: StepFacts) -> (bool, bool) {
    match heading {
        Heading::Point(_) => (f.far, f.above),
        Heading::Player(_) => (f.far || (f.above && f.apart), f.above),
        Heading::Nowhere => (false, false),
    }
}

/// The keys that are pressed: none while the bot digs.
pub open spec fn pressed_keys(b: BotView, heading: Heading, f: StepFacts) -> (bool, bool) {
    if b.mining is Some {
        (false, false)
    } else {
        wanted_keys(heading, f)
    }
}

/// What getting unstuck makes of a step. Only a goal stands still: the distance to a
/// player who is followed may stay the same.
pub open spec fn recovery_of(b: BotView, heading: Heading, f: StepFacts) -> (
    AntiStuck,
    RecoveryDirective,
) {
    let (forward, jump) = pressed_keys(b, heading, f);
    let moving = b.mining is None && (heading is Point || (b.follow_enabled && (forward || jump)));
    let target = match heading {
        Heading::Point(p) => Some(p),
        _ => None,
    };
    if judged(b.session.state.pos, moving, f.dt) {
        adjusted(b.anti_stuck, b.session.state.pos, target, f.yaw, jump, f.dt, f.measurements)
    } else {
        (fresh(), go_on(f.yaw, jump))
    }
}

/// What is reported while the bot goes on.
pub open spec fn reported_status(
    b: BotView,
    heading: Heading,
    triggered: bool,
    recovering: bool,
) -> Seq<char> {
    if recovering {
        "recovering"@
    } else if b.navigation.status == "failed"@ {
        "failed"@
    } else if b.mining is Some {
        "mining"@
    } else if heading is Point {
        "moving"@
    } else if b.follow_enabled {
        "following"@
    } else if triggered {
        "moving"@
    } else {
        "idle"@
    }
}

/// The bot is stuck for good and drops its goal and whom it follows.
pub open spec fn given_up(b: BotView, heading: Heading, attempts: u8) -> BotView {
    BotView {
        move_goal: if heading is Point {
            None
        } else {
            b.move_goal
        },
        follow_enabled: false,
        follow_target_id: if b.follow_enabled {
            None
        } else {
            b.follow_target_id
        },
        navigation: NavigationView {
            recovery_attempts: attempts,
            ..navigation_failed(b.navigation, "stuck_after_recovery"@)
        },
        ..b
    }
}

/// The bot has turned to where it goes, and says how it fares.
pub open spec fn turned_to(
    b: BotView,
    heading: Heading,
    triggered: bool,
    pitch: u32,
    d: RecoveryDirective,
) -> BotView {
    BotView {
        session: SessionView {
            state: PlayerState { yaw: d.yaw, pitch, ..b.session.state },
            ..b.session
        },
        navigation: NavigationView {
            status: reported_status(b, heading, triggered, d.recovering),
            recovering: d.recovering,
            recovery_attempts: if d.give_up {
                d.attempts
            } else {
                b.anti_stuck.recovery_attempts
            },
            stalled_for_seconds: b.anti_stuck.stalled_for,
            ..b.navigation
        },
        ..b
    }
}

/// A step of the bot. `triggered` says that something has begun on arrival in it.
#[verifier::opaque]
pub open spec fn steered(b: BotView, heading: Heading, triggered: bool, f: StepFacts) -> (
    BotView,
    Steering,
) {
    let (anti_stuck, d) = recovery_of(b, heading, f);
    let forward = pressed_keys(b, heading, f).0 || d.recovering;
    let turned = turned_to(BotView { anti_stuck, ..b }, heading, triggered, f.pitch, d);
    (
        if d.give_up {
            given_up(turned, heading, d.attempts)
        } else {
            turned
        },
        Steering {
            forward: forward && !d.give_up,
            jump: d.jump && !d.give_up,
            auto_jump: !d.recovering,
            speed: match b.move_goal {
                Some(goal) => if heading is Point {
                    goal.speed
                } else {
                    b.follow_speed
                },
                None => b.follow_speed,
            },
            yaw: d.yaw,
            on_course: heading is Point && !d.give_up,
        },
    )
}

/// The number one.
pub const FULL_SPEED: u32 = 0x3f80_0000;

/// The player's state with the keys that are pressed. One that rises without
/// floating is seen to jump.
pub open spec fn with_keys(s: PlayerState, forward: bool, jump: bool, floating: bool) -> PlayerState {
    let forward_key: int = if forward {
        KEY_FORWARD as int
    } else {
        0
    };
    let jump_key: int = if jump || (!floating && above_zero(s.speed.y)) {
        KEY_JUMP as int
    } else {
        0
    };
    PlayerState {
        key_pressed: (forward_key + jump_key) as u32,
        movement_speed: if forward {
            FULL_SPEED
        } else {
            0
        },
        movement_dir: 0,
        ..s
    }
}

/// The keys of a step are noted.
#[verifier::opaque]
pub open spec fn keys_pressed(b: BotView, forward: bool, jump: bool, floating: bool) -> BotView {
    BotView {
        session: SessionView {
            state: with_keys(b.session.state, forward, jump, floating),
            ..b.session
        },
        ..b
    }
}

/// Where the bot is has been sent, if it may be sent.
pub open spec fn step_reported(b: BotView, fields: WireFields, now: u64) -> Option<BotView> {
    if sendable(b.session.state) {
        Some(
            BotView {
                session: SessionView {
                    conn: sent_unreliably(
                        b.session.conn,
                        playerpos_payload(b.session.state, fields),
                    ),
                    last_send: now,
                    ..b.session
                },
                last_sent_pos: Some(b.session.state.pos),
                ..b
            },
        )
    } else {
        None
    }
}

fn leads_to_goal(heading: &Heading) -> (yes: bool)
    ensures
        yes == (*heading is Point),
{
    match heading {
        Heading::Point(_) => true,
        _ => false,
    }
}

impl Bot {
    /// Keeps a bot that floats and has nowhere to go where the server put it; true if
    /// it has nowhere to go and floats.
    pub fn hold_still(&mut self, floating: bool) -> (idle: bool)
        requires
            old(self).wf(),
        ensures
            final(self).wf(),
            idle == (floating && !old(self)@.follow_enabled && old(self)@.move_goal is None),
            final(self)@ == held_still(old(self)@, floating),
    {
        if !floating || self.follow_enabled || self.move_goal.is_some() {
            return false;
        }
        if let Some(pos) = self.last_server_pos {
            self.session.state.pos = pos;
            self.session.state.speed = Vec3 { x: 0, y: 0, z: 0 };
        }
        true
    }

    fn arrive(&mut self, goal: MoveGoal) -> (action: Option<ArrivalAction>)
        requires
            old(self).wf(),
        ensures
            final(self).wf(),
            final(self)@ == arrived(old(self)@, goal@),
            arrival_view(action) == goal@.arrival_action,
    {
        self.move_goal = None;
        self.anti_stuck.reset();
        let MoveGoal { arrival_action, .. } = goal;
        if arrival_action.is_none() {
            if self.follow_enabled {
                self.navigation.begin("following");
            } else {
                self.navigation.stop();
            }
        }
        arrival_action
    }

    /// Passes the points that are reached; gives what is to be done at the goal once
    /// that is reached.
    pub fn pass_points(&mut self, reached: &[bool]) -> (action: Option<ArrivalAction>)
        requires
            old(self).wf(),
        ensures
            final(self).wf(),
            (final(self)@, arrival_view(action)) == points_passed(old(self)@, reached@),
    {
        let mut i: usize = 0;
        assert(reached@.skip(0) =~= reached@);
        while i < reached.len()
            invariant
                i <= reached.len(),
                self.wf(),
                points_passed(self@, reached@.skip(i as int)) == points_passed(
                    old(self)@,
                    reached@,
                ),
            decreases reached.len() - i,
        {
            let ghost before = self@;
            if !reached[i] {
                return None;
            }
            match self.move_goal.take() {
                Some(mut goal) => {
                    if goal.waypoints.len() <= 1 {
                        return self.arrive(goal);
                    }
                    goal.advance_waypoint();
                    self.move_goal = Some(goal);
                    self.anti_stuck.reset();
                },
                None => {
                    assert(self@ == before);
                    return None;
                },
            }
            proof {
                assert(reached@.skip(i as int).drop_first() =~= reached@.skip(i + 1));
                assert(reached@.skip(i as int)[0]);
            }
            i = i + 1;
        }
        None
    }

    /// Says where the bot heads, and looks for whom it follows.
    pub fn head(&mut self) -> (heading: Heading)
        requires
            old(self).wf(),
        ensures
            final(self).wf(),
            final(self)@ == headed(old(self)@),
            heading == heading_of(final(self)@),
    {
        if let Some(goal) = &self.move_goal {
            return Heading::Point(goal.current_waypoint());
        }
        if !self.follow_enabled {
            return Heading::Nowhere;
        }
        self.look_for_target();
        match self.follow_target_id {
            Some(id) => match self.players.get(id) {
                Some(p) => Heading::Player(p.pos),
                None => Heading::Nowhere,
            },
            None => Heading::Nowhere,
        }
    }

    /// Begins what is to be done on arrival.
    pub fn start_arrival(
        &mut self,
        action: ArrivalAction,
        targets: VecDeque<Option<IVec3>>,
        now: u64,
    )
        requires
            old(self).wf(),
        ensures
            final(self).wf(),
            final(self)@ == arrival_started(old(self)@, action@, targets@, now),
    {
        match action {
            ArrivalAction::Collect { node, count, .. } => {
                if self.mining.is_some() {
                    self.navigation.fail("mining_busy");
                } else {
                    self.navigation.begin("mining");
                    self.start_collecting(
                        NativeMiningOrigin::ArrivalCollect,
                        node,
                        count,
                        targets,
                        now,
                    );
                }
            },
            ArrivalAction::Hunt { hunt_id } => {
                send_hunt_arrival_action(&mut self.session.conn, hunt_id);
                self.navigation.begin("moving");
            },
        }
    }

    fn keys(&self, heading: &Heading, f: &StepFacts) -> (keys: (bool, bool))
        ensures
            keys == pressed_keys(self@, *heading, *f),
    {
        if self.mining.is_some() {
            return (false, false);
        }
        match heading {
            Heading::Point(_) => (f.far, f.above),
            Heading::Player(_) => (f.far || (f.above && f.apart), f.above),
            Heading::Nowhere => (false, false),
        }
    }

    fn recover(&mut self, heading: &Heading, f: &StepFacts) -> (d: RecoveryDirective)
        requires
            old(self).wf(),
        ensures
            final(self).wf(),
            final(self)@ == (BotView {
                anti_stuck: recovery_of(old(self)@, *heading, *f).0,
                ..old(self)@
            }),
            d == recovery_of(old(self)@, *heading, *f).1,
    {
        let (forward, jump) = self.keys(heading, f);
        let (on_course, target) = match heading {
            Heading::Point(p) => (true, Some(*p)),
            _ => (false, None),
        };
        let moving = self.mining.is_none() && (on_course || (self.follow_enabled && (forward
            || jump)));
        self.anti_stuck.adjust(
            self.session.state.pos,
            target,
            moving,
            f.yaw,
            jump,
            f.dt,
            f.measurements,
        )
    }

    fn status_of(&self, heading: &Heading, triggered: bool, recovering: bool) -> (status:
        &'static str)
        ensures
            status@ == reported_status(self@, *heading, triggered, recovering),
    {
        let on_course = leads_to_goal(heading);
        if recovering {
            "recovering"
        } else if self.navigation.status.to_owned() == "failed".to_owned() {
            "failed"
        } else if self.mining.is_some() {
            "mining"
        } else if on_course {
            "moving"
        } else if self.follow_enabled {
            "following"
        } else if triggered {
            "moving"
        } else {
            "idle"
        }
    }

    fn give_up(&mut self, heading: &Heading, attempts: u8)
        requires
            old(self).wf(),
        ensures
            final(self).wf(),
            final(self)@ == given_up(old(self)@, *heading, attempts),
    {
        if leads_to_goal(heading) {
            self.move_goal = None;
        }
        if self.follow_enabled {
            self.follow_enabled = false;
            self.follow_target_id = None;
        }
        self.navigation.fail("stuck_after_recovery");
        self.navigation.recovery_attempts = attempts;
    }

    fn turn(&mut self, heading: &Heading, triggered: bool, pitch: u32, d: &RecoveryDirective)
        requires
            old(self).wf(),
        ensures
            final(self).wf(),
            final(self)@ == turned_to(old(self)@, *heading, triggered, pitch, *d),
    {
        let status = self.status_of(heading, triggered, d.recovering);
        self.session.state.yaw = d.yaw;
        self.session.state.pitch = pitch;
        self.navigation.status = status;
        self.navigation.recovering = d.recovering;
        self.navigation.recovery_attempts = if d.give_up {
            d.attempts
        } else {
            self.anti_stuck.recovery_attempts()
        };
        self.navigation.stalled_for_seconds = self.anti_stuck.stalled_for();
    }

    /// Turns the bot to where it goes and says which keys to press. `triggered` says
    /// that something has begun on arrival in this step.
    pub fn steer(&mut self, heading: Heading, triggered: bool, f: &StepFacts) -> (s: Steering)
        requires
            old(self).wf(),
        ensures
            final(self).wf(),
            (final(self)@, s) == steered(old(self)@, heading, triggered, *f),
    {
        proof {
            reveal(steered);
        }
        let (forward, _) = self.keys(&heading, f);
        let on_course = leads_to_goal(&heading);
        let speed: u32 = match &self.move_goal {
            Some(goal) => if on_course {
                goal.speed
            } else {
                self.follow_speed
            },
            None => self.follow_speed,
        };
        let d = self.recover(&heading, f);
        self.turn(&heading, triggered, f.pitch, &d);
        if d.give_up {
            self.give_up(&heading, d.attempts);
        }
        Steering {
            forward: (forward || d.recovering) && !d.give_up,
            jump: d.jump && !d.give_up,
            auto_jump: !d.recovering,
            speed,
            yaw: d.yaw,
            on_course: on_course && !d.give_up,
        }
    }

    fn press_keys(&mut self, forward: bool, jump: bool, floating: bool)
        requires
            old(self).wf(),
        ensures
            final(self).wf(),
            final(self)@ == keys_pressed(old(self)@, forward, jump, floating),
    {
        proof {
            reveal(keys_pressed);
        }
        let rising = !floating && 0 < self.session.state.speed.y && self.session.state.speed.y
            <= 0x7f80_0000;
        let forward_key: u32 = if forward { KEY_FORWARD } else { 0 };
        let jump_key: u32 = if jump || rising { KEY_JUMP } else { 0 };
        self.session.state.key_pressed = forward_key + jump_key;
        self.session.state.movement_speed = if forward { FULL_SPEED } else { 0 };
        self.session.state.movement_dir = 0;
    }

    /// Notes the keys of a step and sends where the bot is.
    pub fn report_step(
        &mut self,
        forward: bool,
        jump: bool,
        floating: bool,
        fields: &WireFields,
        now: u64,
    ) -> (result: Result<(), OutboundError>)
        requires
            old(self).wf(),
        ensures
            final(self).wf(),
            match step_reported(
                keys_pressed(old(self)@, forward, jump, floating),
                *fields,
                now,
            ) {
                Some(b) => result is Ok && final(self)@ == b,
                None => result is Err && result->Err_0@ == OutboundErrorView::UnsafeState(
                    fields.summary@,
                ) && final(self)@ == keys_pressed(old(self)@, forward, jump, floating),
            },
    {
        self.press_keys(forward, jump, floating);
        self.session.send_position(fields, now)?;
        self.last_sent_pos = Some(self.session.state.pos);
        Ok(())
    }
}

/// A bot that gives up stands still, goes nowhere any more, and reports why.
pub proof fn giving_up_ends_the_journey(
    b: BotView,
    heading: Heading,
    triggered: bool,
    f: StepFacts,
)
    requires
        heading == heading_of(b),
        recovery_of(b, heading, f).1.give_up,
    ensures
        ({
            let (after, s) = steered(b, heading, triggered, f);
            &&& !s.forward && !s.jump && !s.on_course
            &&& after.move_goal is None && !after.follow_enabled
            &&& heading_of(after) == Heading::Nowhere
            &&& after.navigation.status == "failed"@
            &&& after.navigation.last_error == Some("stuck_after_recovery"@)
        }),
{
    reveal(steered);
}

/// A bot that digs does not walk and is not taken for stuck.
pub proof fn digging_holds_still(b: BotView, heading: Heading, triggered: bool, f: StepFacts)
    requires
        b.mining is Some,
    ensures
        ({
            let (after, s) = steered(b, heading, triggered, f);
            &&& !s.forward && !s.jump
            &&& after.anti_stuck == fresh()
            &&& after.move_goal == b.move_goal
            &&& after.mining == b.mining
        }),
{
    reveal(steered);
}

/// A failure stays reported until something new begins, however often the bot steps.
pub proof fn failure_stays_reported(b: BotView, heading: Heading, triggered: bool, f: StepFacts)
    requires
        b.navigation.status == "failed"@,
        !recovery_of(b, heading, f).1.recovering,
    ensures
        steered(b, heading, triggered, f).0.navigation.status == "failed"@,
        !recovery_of(b, heading, f).1.give_up ==> steered(
            b,
            heading,
            triggered,
            f,
        ).0.navigation.last_error == b.navigation.last_error,
{
    reveal(steered);
}

/// The points of a goal are passed in order and none comes back.
pub proof fn passed_points_are_gone(b: BotView, reached: Seq<bool>)
    requires
        b.move_goal is Some,
    ensures
        match points_passed(b, reached).0.move_goal {
            Some(goal) => exists|n: int|
                0 <= n <= b.move_goal->0.waypoints.len() && n <= reached.len() && goal == (GoalView {
                    waypoints: #[trigger] b.move_goal->0.waypoints.skip(n),
                    ..b.move_goal->0
                }) && (forall|i: int| 0 <= i < n ==> reached[i]),
            None => true,
        },
    decreases reached.len(),
{
    let goal = b.move_goal->0;
    if reached.len() == 0 || !reached[0] {
        assert(goal.waypoints.skip(0) =~= goal.waypoints);
        assert(goal == GoalView { waypoints: goal.waypoints.skip(0), ..goal });
    } else if goal.waypoints.len() > 1 {
        let next = BotView {
            move_goal: Some(GoalView { waypoints: goal.waypoints.drop_first(), ..goal }),
            anti_stuck: fresh(),
            ..b
        };
        passed_points_are_gone(next, reached.drop_first());
        match points_passed(next, reached.drop_first()).0.move_goal {
            Some(g) => {
                let rest = goal.waypoints.drop_first();
                let n = choose|n: int|
                    0 <= n <= rest.len() && n <= reached.drop_first().len() && g == (GoalView {
                        waypoints: #[trigger] rest.skip(n),
                        ..goal
                    }) && (forall|i: int| 0 <= i < n ==> reached.drop_first()[i]);
                assert(rest.skip(n) =~= goal.waypoints.skip(n + 1));
                assert forall|i: int| 0 <= i < n + 1 implies reached[i] by {
                    if i > 0 {
                        assert(reached.drop_first()[i - 1]);
                    }
                }
                assert(g == GoalView { waypoints: goal.waypoints.skip(n + 1), ..goal });
            },
            None => {},
        }
    }
}

/// As many points are passed as are reached one after the other, and no more.
pub proof fn reached_points_are_passed(b: BotView, reached: Seq<bool>, n: int)
    requires
        b.move_goal is Some,
        0 <= n <= reached.len(),
        n < b.move_goal->0.waypoints.len() || (n == 0 && b.move_goal->0.waypoints.len() == 0),
        forall|i: int| 0 <= i < n ==> reached[i],
        n < reached.len() ==> !reached[n],
    ensures
        ({
            let (after, action) = points_passed(b, reached);
            &&& action is None
            &&& after.move_goal == Some(
                GoalView { waypoints: b.move_goal->0.waypoints.skip(n), ..b.move_goal->0 },
            )
            &&& after.navigation == b.navigation && after.session == b.session
        }),
    decreases n,
{
    let goal = b.move_goal->0;
    if n == 0 {
        assert(goal.waypoints.skip(0) =~= goal.waypoints);
    } else {
        let next = BotView {
            move_goal: Some(GoalView { waypoints: goal.waypoints.drop_first(), ..goal }),
            anti_stuck: fresh(),
            ..b
        };
        let rest = reached.drop_first();
        assert forall|i: int| 0 <= i < n - 1 implies rest[i] by {
            assert(reached[i + 1]);
        }
        reached_points_are_passed(next, rest, n - 1);
        assert(goal.waypoints.drop_first().skip(n - 1) =~= goal.waypoints.skip(n));
    }
}

/// Once all points are reached the bot has arrived: it has no goal any more, and what is to be
/// done there comes up; where there is nothing to do it is idle, or follows on.
pub proof fn journeys_end_at_the_last_point(b: BotView, reached: Seq<bool>)
    requires
        b.move_goal is Some,
        reached.len() >= 1,
        reached.len() >= b.move_goal->0.waypoints.len(),
        forall|i: int| 0 <= i < reached.len() ==> reached[i],
    ensures
        ({
            let (after, action) = points_passed(b, reached);
            &&& after.move_goal is None
            &&& action == b.move_goal->0.arrival_action
            &&& after.anti_stuck == fresh()
            &&& action is None ==> after.navigation.status == if b.follow_enabled {
                "following"@
            } else {
                "idle"@
            }
            &&& action is Some ==> after.navigation == b.navigation
        }),
    decreases reached.len(),
{
    let goal = b.move_goal->0;
    if goal.waypoints.len() > 1 {
        let next = BotView {
            move_goal: Some(GoalView { waypoints: goal.waypoints.drop_first(), ..goal }),
            anti_stuck: fresh(),
            ..b
        };
        let rest = reached.drop_first();
        assert forall|i: int| 0 <= i < rest.len() implies rest[i] by {
            assert(reached[i + 1]);
        }
        journeys_end_at_the_last_point(next, rest);
    }
}

/// The bot heads for the first point that is left of its goal, and then for the goal itself;
/// without a goal for the player that it follows, where that player is.
pub proof fn bots_head_for_the_next_point(b: BotView)
    ensures
        match b.move_goal {
            Some(goal) => heading_of(b) == Heading::Point(
                if goal.waypoints.len() > 0 {
                    goal.waypoints[0]
                } else {
                    goal.target
                },
            ),
            None => {
                let seen = b.follow_target_id is Some && player_with_id(
                    b.players,
                    b.follow_target_id->0,
                ) is Some;
                if seen && b.follow_enabled {
                    heading_of(b) == Heading::Player(
                        player_with_id(b.players, b.follow_target_id->0)->0.pos,
                    )
                } else {
                    heading_of(b) == Heading::Nowhere
                }
            },
        },
{
}

/// On arrival a hunt is asked for by its number, and nodes are collected as the route says,
/// unless the bot digs already.
pub proof fn arrival_begins_what_is_to_be_done(
    b: BotView,
    node: Seq<char>,
    count: u16,
    radius: i32,
    target: Option<IVec3>,
    hunt_id: u64,
    targets: Seq<Option<IVec3>>,
    now: u64,
)
    requires
        count > 0,
        now + 3000 <= u64::MAX,
    ensures
        ({
            let after = arrival_started(b, ArrivalView::Hunt { hunt_id }, targets, now);
            &&& after.session.conn == chat_sent(
                b.session.conn,
                "/bot_hunt "@ + dec(hunt_id as int),
            )
            &&& after.navigation.status == "moving"@
            &&& after.mining == b.mining
        }),
        ({
            let action = ArrivalView::Collect { node, count, radius, target };
            let after = arrival_started(b, action, targets, now);
            &&& b.mining is Some ==> after.mining == b.mining && after.navigation.status
                == "failed"@ && after.navigation.last_error == Some("mining_busy"@)
                && after.session == b.session
            &&& b.mining is None && targets.len() > 0 ==> {
                &&& after.mining is Some
                &&& after.mining->0.origin is ArrivalCollect
                &&& after.mining->0.node == Some(node)
                &&& after.mining->0.requested == count
                &&& after.mining->0.mined == 0
                &&& after.mining->0.targets == targets.drop_first()
                &&& after.mining->0.phase == (MiningPhase::Preparing {
                    requested_target: targets[0],
                    deadline: (now + 3000) as u64,
                })
                &&& after.navigation.status == "mining"@
            }
            &&& b.mining is None && targets.len() == 0 ==> {
                &&& after.mining is None
                &&& after.navigation.status == "failed"@
                &&& after.navigation.last_error == Some("no_reachable_nodes"@)
                &&& after.session.conn == b.session.conn
                &&& after.replies == b.replies
            }
        }),
{
    reveal(mining_started);
}

/// The keys: forward while the target is far, jump while it is above; towards a player forward
/// also where the player is above and apart; none while the bot digs or heads nowhere.
pub proof fn keys_lead_to_the_target(b: BotView, p: Vec3, f: StepFacts)
    ensures
        b.mining is None ==> pressed_keys(b, Heading::Point(p), f) == (f.far, f.above),
        b.mining is None ==> pressed_keys(b, Heading::Player(p), f) == (
            f.far || (f.above && f.apart),
            f.above,
        ),
        b.mining is Some ==> pressed_keys(b, Heading::Point(p), f) == (false, false),
        pressed_keys(b, Heading::Nowhere, f) == (false, false),
{
}

/// What is reported while the bot goes on: getting unstuck before anything else, a failure before
/// what the bot does, digging before walking, walking before following.
pub proof fn status_tells_what_the_bot_does(b: BotView, p: Vec3, triggered: bool)
    ensures
        reported_status(b, Heading::Point(p), triggered, true) == "recovering"@,
        b.navigation.status == "failed"@ ==> reported_status(
            b,
            Heading::Point(p),
            triggered,
            false,
        ) == "failed"@,
        b.navigation.status != "failed"@ && b.mining is Some ==> reported_status(
            b,
            Heading::Point(p),
            triggered,
            false,
        ) == "mining"@,
        b.navigation.status != "failed"@ && b.mining is None ==> {
            &&& reported_status(b, Heading::Point(p), triggered, false) == "moving"@
            &&& b.follow_enabled ==> reported_status(b, Heading::Nowhere, triggered, false)
                == "following"@
            &&& !b.follow_enabled && triggered ==> reported_status(
                b,
                Heading::Nowhere,
                triggered,
                false,
            ) == "moving"@
            &&& !b.follow_enabled && !triggered ==> reported_status(
                b,
                Heading::Nowhere,
                triggered,
                false,
            ) == "idle"@
        },
{
}

/// A step that is no recovery goes where it was wanted, at the goal's speed or else the speed for
/// following, and keeps the goal.
pub proof fn steps_go_where_they_are_wanted(
    b: BotView,
    heading: Heading,
    triggered: bool,
    f: StepFacts,
)
    requires
        !recovery_of(b, heading, f).1.give_up,
    ensures
        ({
            let (after, s) = steered(b, heading, triggered, f);
            let d = recovery_of(b, heading, f).1;
            &&& s.forward == (pressed_keys(b, heading, f).0 || d.recovering)
            &&& s.jump == d.jump
            &&& s.yaw == d.yaw
            &&& s.auto_jump == !d.recovering
            &&& s.on_course == (heading is Point)
            &&& s.speed == if b.move_goal is Some && heading is Point {
                b.move_goal->0.speed
            } else {
                b.follow_speed
            }
            &&& after.move_goal == b.move_goal && after.follow_enabled == b.follow_enabled
            &&& after.session.state.yaw == d.yaw
            &&& after.session.state.pitch == f.pitch
            &&& after.session.state.pos == b.session.state.pos
            &&& after.navigation.recovering == d.recovering
        }),
{
    reveal(steered);
}

/// A bot that neither moves nor follows is judged neither stuck nor recovering.
pub proof fn idle_bots_are_not_stuck(b: BotView, f: StepFacts)
    requires
        !b.follow_enabled,
    ensures
        recovery_of(b, Heading::Nowhere, f) == (fresh(), go_on(f.yaw, false)),
{
}

/// The keys are sent as bits: forward is the lowest, jump the fifth. Jump is held while the bot
/// rises. The analog speed is full while it walks, and straight ahead.
pub proof fn keys_are_sent_as_bits(s: PlayerState, forward: bool, jump: bool, floating: bool)
    ensures
        ({
            let after = with_keys(s, forward, jump, floating);
            let rises = !floating && above_zero(s.speed.y);
            &&& after.key_pressed % 2 == 1 <==> forward
            &&& (after.key_pressed / 16) % 2 == 1 <==> jump || rises
            &&& after.key_pressed <= 17
            &&& after.key_pressed == if forward {
                if jump || rises {
                    17int
                } else {
                    1int
                }
            } else {
                if jump || rises {
                    16int
                } else {
                    0int
                }
            }
            &&& after.movement_speed == if forward {
                0x3f80_0000u32
            } else {
                0u32
            }
            &&& after.movement_dir == 0
            &&& after.pos == s.pos && after.speed == s.speed && after.yaw == s.yaw && after.pitch
                == s.pitch
        }),
{
}

/// A bot that floats and goes nowhere stays where the server last put it; one that goes somewhere
/// is not held.
pub proof fn floating_bots_stay_where_they_are(b: BotView, floating: bool)
    ensures
        ({
            let after = held_still(b, floating);
            if floating && !b.follow_enabled && b.move_goal is None && b.last_server_pos is Some {
                &&& after.session.state.pos == b.last_server_pos->0
                &&& after.session.state.speed == (Vec3 { x: 0, y: 0, z: 0 })
                &&& after.session.conn == b.session.conn
                &&& after.session.state.yaw == b.session.state.yaw
            } else {
                after == b
            }
        }),
{
}

/// A step is reported with the whole state, unreliably, and remembered; a state that cannot be
/// sent is not.
pub proof fn steps_are_reported(b: BotView, fields: WireFields, now: u64)
    ensures
        step_reported(b, fields, now) is Some <==> sendable(b.session.state),
        match step_reported(b, fields, now) {
            Some(after) => {
                &&& after.session.conn == sent_unreliably(
                    b.session.conn,
                    seq![0u8, 0x23] + player_state_fields(b.session.state, fields),
                )
                &&& after.session.last_send == now
                &&& after.last_sent_pos == Some(b.session.state.pos)
                &&& after.session.state == b.session.state
            },
            None => true,
        },
{
    assert(playerpos_payload(b.session.state, fields) == seq![0u8, 0x23] + player_state_fields(
        b.session.state,
        fields,
    )) by {
        assert(be16(0x23) =~= seq![0u8, 0x23]);
    }
}

/// Before a step a bot that follows somebody who is not in view looks for them by name, unless it
/// has a goal.
pub proof fn followed_players_are_looked_for(b: BotView)
    ensures
        headed(b).follow_target_id == if b.move_goal is None && b.follow_enabled
            && b.follow_target_id is None {
            target_id(b.players, b.follow_target_name)
        } else {
            b.follow_target_id
        },
        headed(b).players == b.players && headed(b).session == b.session && headed(b).move_goal
            == b.move_goal,
{
}

} // verus!
