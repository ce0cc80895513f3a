//! The tick driver: one level in play.
//!
//! A tick steps the body, turns the recorded contacts with it, lets the ball
//! fall, and resolves the contacts of the ball with the turned outline. Of
//! several contacts in one tick exactly one is resolved, for the bounce and
//! for the position alike: the one whose point, turned back by the step of
//! the body, lies nearest to where the ball was before the tick. All of them
//! are recorded.

use vstd::prelude::*;
use web_time::Instant;
use crate::ball::Ball;
use crate::clock::{nanos_since, now};
use crate::collision;
use crate::collision::{detect_collision, resolve, spec_detect_collision, spec_resolved};
use crate::control::{Input, InputSet, InputSetWork};
use crate::error::ConfigError;
use crate::fixed::Fixed;
use crate::history::{spec_advanced, spec_push, CollisionList};
use crate::level::Level;
use crate::rotating;
use crate::rotating::Body;
use crate::shape::{compute_winding_number, flatten_segments, spec_winding_number, Segment};
use crate::trig::Rotation;
use crate::vector::Point;

verus! {

/// The number of contacts a game keeps.
pub const HISTORY_CAPACITY: usize = 1024;

/// The raw tick rate times the nanoseconds that make one tick at rate one.
pub const NANOS_SCALE: u128 = 4_294_967_296_000_000_000;

/// How a game stands after an update.
#[derive(Clone, Copy, Debug, PartialEq, Eq, Structural)]
pub enum State {
    Playing,
    Victory,
    Defeat,
}

/// A level in play: the state of play, the work done so far, and the log
/// of contacts.
#[derive(Debug)]
pub struct Game {
    pub start_time: Instant,
    pub tick_rate: Fixed,
    pub tick_dt: Fixed,
    pub tick_counter: u64,
    pub frame_counter: u64,
    pub level: Level,
    pub input_work: InputSetWork,
    pub collision_list: CollisionList,
}

/// A game as the contracts see it: all but the moment on the wall clock it
/// was started at.
pub struct GameView {
    pub tick_rate: Fixed,
    pub tick_dt: Fixed,
    pub tick_counter: u64,
    pub frame_counter: u64,
    pub level: Level,
    pub input_work: InputSetWork,
    pub history: Seq<rotating::Collision>,
    pub capacity: nat,
}

/// The contacts of `ball` with each of `segments`, in the order of the segments.
pub open spec fn spec_detect_all(segments: Seq<Segment>, ball: Ball) -> Seq<collision::Collision>
    decreases segments.len(),
{
    if segments.len() == 0 {
        Seq::empty()
    } else {
        let before = spec_detect_all(segments.drop_last(), ball);
        match spec_detect_collision(segments.last(), ball) {
            Some(contact) => before.push(contact),
            None => before,
        }
    }
}

/// Every contact found comes from one of the segments, and no segment gives
/// more than one.
pub proof fn lemma_contacts_come_from_segments(segments: Seq<Segment>, ball: Ball)
    ensures
        spec_detect_all(segments, ball).len() <= segments.len(),
        forall|k: int|
            0 <= k < spec_detect_all(segments, ball).len() ==> exists|i: int|
                0 <= i < segments.len() && spec_detect_collision(#[trigger] segments[i], ball)
                    == Some(#[trigger] spec_detect_all(segments, ball)[k]),
    decreases segments.len(),
{
    if segments.len() > 0 {
        let before = segments.drop_last();
        lemma_contacts_come_from_segments(before, ball);
        let found = spec_detect_all(segments, ball);
        assert forall|k: int| 0 <= k < found.len() implies exists|i: int|
            0 <= i < segments.len() && spec_detect_collision(#[trigger] segments[i], ball) == Some(
                #[trigger] found[k],
            ) by {
            if k < spec_detect_all(before, ball).len() {
                let i = choose|i: int|
                    0 <= i < before.len() && spec_detect_collision(#[trigger] before[i], ball)
                        == Some(spec_detect_all(before, ball)[k]);
                assert(segments[i] == before[i]);
            } else {
                assert(spec_detect_collision(segments[segments.len() - 1], ball) == Some(found[k]));
            }
        }
    }
}

/// The raw distance from `previous` to the point of `contact` turned by
/// `angle` about `center`.
pub open spec fn contact_distance(
    contact: collision::Collision,
    angle: Fixed,
    center: Point,
    previous: Point,
) -> int {
    contact.spec_rotated(Rotation::spec_from_angle(angle), center).point.spec_minus(
        previous,
    ).spec_length().raw as int
}

/// The index of the first of `contacts` at the least distance from
/// `previous`; zero where there is none.
pub open spec fn spec_closest(
    contacts: Seq<collision::Collision>,
    angle: Fixed,
    center: Point,
    previous: Point,
) -> int
    decreases contacts.len(),
{
    if contacts.len() <= 1 {
        0
    } else {
        let best = spec_closest(contacts.drop_last(), angle, center, previous);
        if contact_distance(contacts.last(), angle, center, previous) < contact_distance(
            contacts[best],
            angle,
            center,
            previous,
        ) {
            contacts.len() - 1
        } else {
            best
        }
    }
}

/// The contact chosen among several is the first of those nearest to where
/// the ball was: none is nearer, and none before it is as near.
pub proof fn lemma_closest_is_first_nearest(
    contacts: Seq<collision::Collision>,
    angle: Fixed,
    center: Point,
    previous: Point,
)
    requires
        contacts.len() > 0,
    ensures
        ({
            let chosen = spec_closest(contacts, angle, center, previous);
            &&& 0 <= chosen < contacts.len()
            &&& forall|j: int|
                0 <= j < contacts.len() ==> contact_distance(
                    contacts[chosen],
                    angle,
                    center,
                    previous,
                ) <= contact_distance(#[trigger] contacts[j], angle, center, previous)
            &&& forall|j: int|
                0 <= j < chosen ==> contact_distance(contacts[chosen], angle, center, previous)
                    < contact_distance(#[trigger] contacts[j], angle, center, previous)
        }),
    decreases contacts.len(),
{
    if contacts.len() > 1 {
        let before = contacts.drop_last();
        lemma_closest_is_first_nearest(before, angle, center, previous);
        let best = spec_closest(before, angle, center, previous);
        let chosen = spec_closest(contacts, angle, center, previous);
        assert forall|j: int| 0 <= j < contacts.len() implies contact_distance(
            contacts[chosen],
            angle,
            center,
            previous,
        ) <= contact_distance(#[trigger] contacts[j], angle, center, previous) by {
            if j < contacts.len() - 1 {
                assert(before[j] == contacts[j]);
            }
        }
        assert forall|j: int| 0 <= j < chosen implies contact_distance(
            contacts[chosen],
            angle,
            center,
            previous,
        ) < contact_distance(#[trigger] contacts[j], angle, center, previous) by {
            assert(before[j] == contacts[j]);
        }
    }
}

/// The records after each of `contacts`, found in tick `time`, is pushed in order.
pub open spec fn spec_recorded(
    records: Seq<rotating::Collision>,
    capacity: nat,
    contacts: Seq<collision::Collision>,
    center: Point,
    time: u64,
) -> Seq<rotating::Collision>
    decreases contacts.len(),
{
    if contacts.len() == 0 {
        records
    } else {
        spec_push(
            spec_recorded(records, capacity, contacts.drop_last(), center, time),
            capacity,
            rotating::Collision::spec_new(contacts.last(), center, time),
        )
    }
}

/// The number of ticks due after `elapsed` nanoseconds at `tick_rate` ticks
/// a second: their product, rounded to the nearest whole number, halves
/// upward.
pub open spec fn spec_target_ticks(elapsed: u128, tick_rate: Fixed) -> u64 {
    let nanos = if elapsed > u64::MAX {
        u64::MAX as int
    } else {
        elapsed as int
    };
    let rate = if tick_rate.raw > 0 {
        tick_rate.raw as int
    } else {
        0
    };
    let ticks = (nanos * rate + NANOS_SCALE / 2) / (NANOS_SCALE as int);
    if ticks > u64::MAX {
        u64::MAX
    } else {
        ticks as u64
    }
}

/// The count after `count`, which stays where it is at the end of its range.
pub open spec fn spec_succ(count: u64) -> u64 {
    if count < u64::MAX {
        (count + 1) as u64
    } else {
        count
    }
}

/// The first fault of the configuration, if it has one: a fault of the
/// level, or a tick rate not above zero.
pub open spec fn spec_config_fault(level: Level, tick_rate: Fixed) -> Option<ConfigError> {
    match level.spec_fault() {
        Some(e) => Some(e),
        None => if tick_rate.raw <= 0 {
            Some(ConfigError::NonPositiveTickRate)
        } else {
            None
        },
    }
}

impl GameView {
    /// The work brake and boost may still do: the budget less what both have
    /// done, and not below zero.
    pub open spec fn spec_work_remaining(self) -> Fixed {
        let spent = self.input_work.brake.spec_add(self.input_work.boost);
        let left = self.level.max_work.spec_sub(spent);
        if left.raw > 0 {
            left
        } else {
            Fixed::spec_zero()
        }
    }

    /// Whether brake and boost are still available.
    pub open spec fn spec_inputs_enabled(self) -> bool {
        self.spec_work_remaining().raw > 0
    }

    /// The inputs that act on the body: those of the level, with brake and
    /// boost taken away once the budget is spent.
    pub open spec fn spec_input(self) -> InputSet {
        if self.spec_inputs_enabled() {
            self.level.input
        } else {
            InputSet { brake: Input::spec_off(), boost: Input::spec_off(), ..self.level.input }
        }
    }

    /// The contacts of the ball with the outline of the body as it stands.
    pub open spec fn spec_contacts(self) -> Seq<collision::Collision> {
        spec_detect_all(flatten_segments(self.level.body.spec_outline()), self.level.ball)
    }

    /// The angle the body is turned back by to find where a contact was
    /// before the tick.
    pub open spec fn spec_back_angle(self) -> Fixed {
        self.level.body.angular_velocity.spec_neg().spec_mul(self.tick_dt)
    }

    /// The game after the contacts of the ball are resolved and recorded,
    /// where `previous` is where the ball was before the tick.
    pub open spec fn spec_handled(self, previous: Point) -> GameView {
        let contacts = self.spec_contacts();
        if contacts.len() == 0 {
            self
        } else {
            let center = self.level.body.center_of_rotation;
            let chosen = contacts[spec_closest(contacts, self.spec_back_angle(), center, previous)];
            GameView {
                level: Level { ball: spec_resolved(self.level.ball, chosen), ..self.level },
                history: spec_recorded(
                    self.history,
                    self.capacity,
                    contacts,
                    center,
                    self.tick_counter,
                ),
                ..self
            }
        }
    }

    /// The game after one step of the physics.
    #[verifier::opaque]
    pub open spec fn spec_physics(self) -> GameView {
        let input = self.spec_input();
        let body = self.level.body;
        let stepped = GameView {
            level: Level {
                body: Body {
                    angular_velocity: body.spec_next_velocity(input, self.tick_dt),
                    angle: body.spec_next_angle(input, self.tick_dt),
                    ..body
                },
                ball: self.level.ball.spec_update(self.tick_dt, self.level.gravity),
                ..self.level
            },
            input_work: self.input_work.spec_plus(body.spec_work(input, self.tick_dt)),
            history: spec_advanced(self.history, body.spec_delta_angle(input, self.tick_dt)),
            ..self
        };
        stepped.spec_handled(self.level.ball.center)
    }

    /// Whether the ball is out of the cage: the outline of the body, taken
    /// as a closed curve, does not wind around its center.
    #[verifier::opaque]
    pub open spec fn spec_has_escaped(self) -> bool {
        spec_winding_number(self.level.ball.center, self.level.body.spec_outline()) == 0
    }

    /// The game after up to `ticks` further ticks, and how it stands then:
    /// it stops at the first tick after which the ball is out, and counts a
    /// frame where it was not.
    pub open spec fn spec_run(self, ticks: nat) -> (GameView, State)
        decreases ticks,
    {
        if ticks == 0 {
            (GameView { frame_counter: spec_succ(self.frame_counter), ..self }, State::Playing)
        } else {
            let next = GameView {
                tick_counter: spec_succ(self.tick_counter),
                ..self
            }.spec_physics();
            if next.spec_has_escaped() {
                (next, State::Victory)
            } else {
                next.spec_run((ticks - 1) as nat)
            }
        }
    }

    /// The number of ticks by which the game is behind `target`.
    pub open spec fn spec_ticks_due(self, target: u64) -> nat {
        if target > self.tick_counter {
            (target - self.tick_counter) as nat
        } else {
            0
        }
    }

    /// The game `elapsed` nanoseconds after its start, and how it stands
    /// then: lost and unchanged where the time is up, else caught up with
    /// the ticks due.
    pub open spec fn spec_advance(self, elapsed: u128) -> (GameView, State) {
        if elapsed > self.level.max_time {
            (self, State::Defeat)
        } else {
            self.spec_run(self.spec_ticks_due(spec_target_ticks(elapsed, self.tick_rate)))
        }
    }
}

/// A step of the physics moves the body and the ball, adds to the work and
/// to the log, and leaves the rest of the game as it was: the counters, the
/// tick rate and step, the capacity of the log, and of the level all but the
/// angle and spin of the body and the center and velocity of the ball.
pub proof fn lemma_physics_keeps(game: GameView)
    ensures
        ({
            let next = game.spec_physics();
            &&& next.tick_counter == game.tick_counter
            &&& next.frame_counter == game.frame_counter
            &&& next.tick_rate == game.tick_rate
            &&& next.tick_dt == game.tick_dt
            &&& next.capacity == game.capacity
            &&& next.level == (Level {
                body: Body {
                    angle: next.level.body.angle,
                    angular_velocity: next.level.body.angular_velocity,
                    ..game.level.body
                },
                ball: Ball {
                    center: next.level.ball.center,
                    velocity: next.level.ball.velocity,
                    ..game.level.ball
                },
                ..game.level
            })
        }),
{
    reveal(GameView::spec_physics);
}

/// How a run of ticks ends. It is never lost. Where it ends in play, every
/// tick was run and one frame counted. Where it ends won, the ball is out, at
/// least one tick was run, and no frame was counted.
pub proof fn lemma_run_outcome(game: GameView, ticks: nat)
    requires
        game.tick_counter + ticks <= u64::MAX,
        game.frame_counter < u64::MAX,
    ensures
        ({
            let (end, state) = game.spec_run(ticks);
            &&& state != State::Defeat
            &&& state == State::Playing ==> end.tick_counter == game.tick_counter + ticks
                && end.frame_counter == game.frame_counter + 1
            &&& state == State::Victory ==> end.spec_has_escaped() && game.tick_counter
                < end.tick_counter <= game.tick_counter + ticks && end.frame_counter
                == game.frame_counter
            &&& end.tick_rate == game.tick_rate
            &&& end.tick_dt == game.tick_dt
            &&& end.capacity == game.capacity
            &&& end.level.max_time == game.level.max_time
        }),
    decreases ticks,
{
    if ticks > 0 {
        let counted = GameView { tick_counter: spec_succ(game.tick_counter), ..game };
        lemma_physics_keeps(counted);
        let next = counted.spec_physics();
        if !next.spec_has_escaped() {
            lemma_run_outcome(next, (ticks - 1) as nat);
        }
    }
}

/// The contacts of `ball` with each of `segments`.
fn detect_all(segments: &Vec<Segment>, ball: Ball) -> (r: Vec<collision::Collision>)
    ensures
        r@ == spec_detect_all(segments@, ball),
{
    let mut out: Vec<collision::Collision> = Vec::new();
    let mut i: usize = 0;
    while i < segments.len()
        invariant
            0 <= i <= segments.len(),
            out@ == spec_detect_all(segments@.take(i as int), ball),
        decreases segments.len() - i,
    {
        proof {
            assert(segments@.take(i + 1).drop_last() =~= segments@.take(i as int));
            assert(segments@.take(i + 1).last() == segments@[i as int]);
        }
        match detect_collision(segments[i], ball) {
            Some(contact) => {
                out.push(contact);
            },
            None => {},
        }
        i += 1;
    }
    assert(segments@.take(i as int) =~= segments@);
    out
}

/// The index of the first of `contacts` nearest to `previous` once turned
/// by `angle` about `center`.
fn closest(contacts: &Vec<collision::Collision>, angle: Fixed, center: Point, previous: Point) -> (r:
    usize)
    requires
        contacts.len() > 0,
    ensures
        r == spec_closest(contacts@, angle, center, previous),
        r < contacts.len(),
{
    let mut best: usize = 0;
    let mut best_distance = contacts[0].rotate(angle, center).point.minus(previous).length();
    let mut i: usize = 1;
    assert(contacts@.take(1).len() == 1);
    while i < contacts.len()
        invariant
            1 <= i <= contacts.len(),
            best < i,
            best == spec_closest(contacts@.take(i as int), angle, center, previous),
            best_distance.raw == contact_distance(contacts@[best as int], angle, center, previous),
        decreases contacts.len() - i,
    {
        let distance = contacts[i].rotate(angle, center).point.minus(previous).length();
        proof {
            assert(contacts@.take(i + 1).drop_last() =~= contacts@.take(i as int));
            assert(contacts@.take(i + 1).last() == contacts@[i as int]);
            assert(contacts@.take(i + 1)[best as int] == contacts@[best as int]);
        }
        if distance.raw < best_distance.raw {
            best = i;
            best_distance = distance;
        }
        i += 1;
    }
    assert(contacts@.take(i as int) =~= contacts@);
    best
}

/// The number of ticks due after `elapsed` nanoseconds at `tick_rate`.
fn target_ticks(elapsed: u128, tick_rate: Fixed) -> (r: u64)
    ensures
        r == spec_target_ticks(elapsed, tick_rate),
{
    let nanos: u128 = if elapsed > u64::MAX as u128 {
        u64::MAX as u128
    } else {
        elapsed
    };
    let rate: u128 = if tick_rate.raw > 0 {
        tick_rate.raw as u128
    } else {
        0
    };
    assert(0 <= nanos * rate <= 0xffff_ffff_ffff_ffff * 0x7fff_ffff_ffff_ffff) by (nonlinear_arith)
        requires
            0 <= nanos <= 0xffff_ffff_ffff_ffff,
            0 <= rate <= 0x7fff_ffff_ffff_ffff;
    let ticks: u128 = (nanos * rate + 2_147_483_648_000_000_000) / 4_294_967_296_000_000_000;
    if ticks > u64::MAX as u128 {
        u64::MAX
    } else {
        ticks as u64
    }
}

impl View for Game {
    type V = GameView;

    /// The game without the moment it was started at, its log as the
    /// records held.
    open spec fn view(&self) -> GameView {
        GameView {
            tick_rate: self.tick_rate,
            tick_dt: self.tick_dt,
            tick_counter: self.tick_counter,
            frame_counter: self.frame_counter,
            level: self.level,
            input_work: self.input_work,
            history: self.collision_list@,
            capacity: self.collision_list.spec_capacity(),
        }
    }
}

impl Game {
    /// Whether the game can be stepped: its level is sound and its log of
    /// contacts well-formed.
    pub open spec fn wf(&self) -> bool {
        &&& self.level.wf()
        &&& self.collision_list.wf()
    }

    /// A game of `level` at `tick_rate` ticks a second, started now.
    /// Refused where the level has a fault or the tick rate is not above zero.
    pub fn new(level: Level, tick_rate: Fixed) -> (r: Result<Game, ConfigError>)
        ensures
            match r {
                Ok(game) => {
                    &&& spec_config_fault(level, tick_rate).is_none()
                    &&& game.wf()
                    &&& game@ == (GameView {
                        tick_rate,
                        tick_dt: Fixed::spec_one().spec_div(tick_rate),
                        tick_counter: 0,
                        frame_counter: 0,
                        level,
                        input_work: InputSetWork::spec_default(),
                        history: Seq::empty(),
                        capacity: HISTORY_CAPACITY as nat,
                    })
                },
                Err(e) => spec_config_fault(level, tick_rate) == Some(e),
            },
    {
        match level.fault() {
            Some(e) => {
                return Err(e);
            },
            None => {},
        }
        if tick_rate.raw <= 0 {
            return Err(ConfigError::NonPositiveTickRate);
        }
        Ok(
            Game {
                start_time: now(),
                tick_rate,
                tick_dt: Fixed::one().div(tick_rate),
                tick_counter: 0,
                frame_counter: 0,
                level,
                input_work: InputSetWork::default(),
                collision_list: CollisionList::new(HISTORY_CAPACITY),
            },
        )
    }

    /// Brings the game up to the present moment on the wall clock: reads
    /// the time that has passed since the start and advances to it. What
    /// the clock says is not known beforehand; whatever it says, the game
    /// ends as `advance` would leave it for some time passed.
    pub fn update(&mut self) -> (r: State)
        requires
            old(self).wf(),
            old(self).frame_counter < u64::MAX,
        ensures
            final(self).wf(),
            final(self).start_time == old(self).start_time,
            exists|elapsed: u128| (final(self)@, r) == old(self)@.spec_advance(elapsed),
            r == State::Defeat ==> final(self)@ == old(self)@,
            r == State::Victory ==> final(self)@.spec_has_escaped(),
            r == State::Playing ==> final(self).frame_counter == old(self).frame_counter + 1,
            r != State::Playing ==> final(self).frame_counter == old(self).frame_counter,
            old(self).tick_counter <= final(self).tick_counter,
    {
        let elapsed = nanos_since(&self.start_time);
        self.advance(elapsed)
    }

    /// Brings the game up to `elapsed` nanoseconds after its start. Where
    /// that is beyond the time limit the game is lost and nothing moves.
    /// Else the ticks due are run, one by one; the game is won, and stops,
    /// with the first tick after which the ball is out of the cage.
    pub fn advance(&mut self, elapsed: u128) -> (r: State)
        requires
            old(self).wf(),
            old(self).frame_counter < u64::MAX,
        ensures
            final(self).wf(),
            final(self).start_time == old(self).start_time,
            (final(self)@, r) == old(self)@.spec_advance(elapsed),
            r == State::Defeat <==> elapsed > old(self).level.max_time,
            r == State::Victory ==> final(self)@.spec_has_escaped(),
            r == State::Playing ==> final(self).frame_counter == old(self).frame_counter + 1
                && final(self).tick_counter == old(self).tick_counter + old(self)@.spec_ticks_due(
                spec_target_ticks(elapsed, old(self).tick_rate),
            ),
            r != State::Playing ==> final(self).frame_counter == old(self).frame_counter,
            old(self).tick_counter <= final(self).tick_counter,
    {
        if elapsed > self.level.max_time {
            return State::Defeat;
        }
        let target = target_ticks(elapsed, self.tick_rate);
        while self.tick_counter < target
            invariant
                self.wf(),
                self.frame_counter == old(self).frame_counter,
                self.frame_counter < u64::MAX,
                old(self).tick_counter <= self.tick_counter,
                self.tick_counter <= target || self.tick_counter == old(self).tick_counter,
                self.start_time == old(self).start_time,
                elapsed <= old(self).level.max_time,
                target == spec_target_ticks(elapsed, old(self).tick_rate),
                self@.spec_run(self@.spec_ticks_due(target)) == old(self)@.spec_run(
                    old(self)@.spec_ticks_due(target),
                ),
            decreases target - self.tick_counter,
        {
            self.tick_counter += 1;
            self.update_physics();
            if self.has_escaped() {
                return State::Victory;
            }
        }
        self.frame_counter += 1;
        State::Playing
    }

    /// Whether the ball is out of the cage.
    pub fn has_escaped(&self) -> (r: bool)
        ensures
            r == self@.spec_has_escaped(),
    {
        reveal(GameView::spec_has_escaped);
        let winding_number = compute_winding_number(
            self.level.ball.center,
            &self.level.body.shape_with_rotation_applied(),
        );
        winding_number == 0
    }

    /// The work brake and boost may still do.
    pub fn work_remaining(&self) -> (r: Fixed)
        ensures
            r == self@.spec_work_remaining(),
    {
        let work_spent = self.input_work.brake.add(self.input_work.boost);
        let left = self.level.max_work.sub(work_spent);
        if left.raw > 0 {
            left
        } else {
            Fixed::zero()
        }
    }

    /// Whether brake and boost are still available.
    pub fn inputs_enabled(&self) -> (r: bool)
        ensures
            r == self@.spec_inputs_enabled(),
    {
        self.work_remaining().raw > 0
    }

    /// The inputs that act on the body.
    pub fn input(&self) -> (r: InputSet)
        ensures
            r == self@.spec_input(),
    {
        if self.inputs_enabled() {
            self.level.input
        } else {
            InputSet {
                brake: Input { torque: Fixed::zero(), active: false },
                motor: self.level.input.motor,
                boost: Input { torque: Fixed::zero(), active: false },
            }
        }
    }

    /// Runs one step of the physics.
    pub fn update_physics(&mut self)
        requires
            old(self).wf(),
        ensures
            final(self).wf(),
            final(self).start_time == old(self).start_time,
            final(self).tick_counter == old(self).tick_counter,
            final(self).frame_counter == old(self).frame_counter,
            final(self)@ == old(self)@.spec_physics(),
    {
        reveal(GameView::spec_physics);
        let input = self.input();
        let update_result = self.level.body.update(input, self.tick_dt);
        self.input_work.add_assign(update_result.work);
        self.collision_list.advance(update_result.delta_angle);

        let ball_previous_position = self.level.ball.center;
        self.level.ball.update(self.tick_dt, self.level.gravity);

        self.handle_collisions(ball_previous_position);
    }

    /// The contacts of the ball with the outline of the body as it stands.
    pub fn detect_collisions(&self) -> (r: Vec<collision::Collision>)
        ensures
            r@ == self@.spec_contacts(),
            r@.len() <= flatten_segments(self.level.body.spec_outline()).len(),
    {
        proof {
            lemma_contacts_come_from_segments(
                flatten_segments(self.level.body.spec_outline()),
                self.level.ball,
            );
        }
        let shape = self.level.body.shape_with_rotation_applied();
        let line_segments = shape.all_segments();
        detect_all(&line_segments, self.level.ball)
    }

    /// Resolves and records the contacts of the ball, where
    /// `ball_previous_position` is where the ball was before the tick.
    pub fn handle_collisions(&mut self, ball_previous_position: Point)
        requires
            old(self).wf(),
        ensures
            final(self).wf(),
            final(self).start_time == old(self).start_time,
            final(self)@ == old(self)@.spec_handled(ball_previous_position),
    {
        let collisions = self.detect_collisions();
        if collisions.len() == 0 {
            return ;
        }
        let center = self.level.body.center_of_rotation;
        let delta_angle = self.level.body.angular_velocity.neg().mul(self.tick_dt);
        let chosen = collisions[closest(&collisions, delta_angle, center, ball_previous_position)];

        self.level.ball = resolve(self.level.ball, chosen);

        let ghost before = self.collision_list@;
        let mut i: usize = 0;
        while i < collisions.len()
            invariant
                0 <= i <= collisions.len(),
                self.collision_list.wf(),
                self.collision_list.spec_capacity() == old(self).collision_list.spec_capacity(),
                self.collision_list@ == spec_recorded(
                    before,
                    self.collision_list.spec_capacity(),
                    collisions@.take(i as int),
                    center,
                    self.tick_counter,
                ),
                self.level == (Level {
                    ball: spec_resolved(old(self).level.ball, chosen),
                    ..old(self).level
                }),
                self.start_time == old(self).start_time,
                self.tick_rate == old(self).tick_rate,
                self.tick_dt == old(self).tick_dt,
                self.tick_counter == old(self).tick_counter,
                self.frame_counter == old(self).frame_counter,
                self.input_work == old(self).input_work,
            decreases collisions.len() - i,
        {
            proof {
                assert(collisions@.take(i + 1).drop_last() =~= collisions@.take(i as int));
                assert(collisions@.take(i + 1).last() == collisions@[i as int]);
            }
            self.collision_list.push(
                rotating::Collision::new(collisions[i], center, self.tick_counter),
            );
            i += 1;
        }
        assert(collisions@.take(i as int) =~= collisions@);
    }
}

} // verus!
