//! What holds of the motion of the body: the work of its torques, and how
//! the brake brings it to rest.

use vstd::prelude::*;
use crate::control::{InputSet, InputSetWork};
use crate::game::GameView;
use crate::fixed::{
    lemma_trunc_div_bounds, lemma_trunc_div_monotone, magnitude, saturate, trunc_div, Fixed, SCALE,
};
use crate::rotating::{Body, SNAP_THRESHOLD};

verus! {

/// A product has the sign that the signs of its factors give it.
pub proof fn lemma_product_sign(a: Fixed, b: Fixed)
    ensures
        (a.raw >= 0 && b.raw >= 0) || (a.raw <= 0 && b.raw <= 0) ==> a.spec_mul(b).raw >= 0,
        (a.raw >= 0 && b.raw <= 0) || (a.raw <= 0 && b.raw >= 0) ==> a.spec_mul(b).raw <= 0,
{
    let x = a.raw as int;
    let y = b.raw as int;
    assert(((x >= 0 && y >= 0) || (x <= 0 && y <= 0) ==> x * y >= 0) && ((x >= 0 && y <= 0) || (x
        <= 0 && y >= 0) ==> x * y <= 0)) by (nonlinear_arith);
    lemma_trunc_div_bounds(x * y, SCALE as int);
}

/// To multiply by one changes nothing, and by minus one negates.
pub proof fn lemma_times_unit(a: Fixed)
    ensures
        a.spec_mul(Fixed::spec_one()) == a,
        a.spec_mul(Fixed::spec_one().spec_neg()) == a.spec_neg(),
        a.spec_mul(Fixed::spec_zero()) == Fixed::spec_zero(),
{
    let x = a.raw as int;
    let one = SCALE as int;
    lemma_trunc_div_bounds(x * one, one);
    lemma_trunc_div_bounds(x * (-one), one);
    assert(trunc_div(x * one, one) == x) by (nonlinear_arith)
        requires
            one > 0,
            x >= 0 ==> 0 <= trunc_div(x * one, one) * one <= x * one < trunc_div(x * one, one)
                * one + one,
            x <= 0 ==> trunc_div(x * one, one) * one - one < x * one <= trunc_div(x * one, one)
                * one <= 0,
            x * one >= 0 <==> x >= 0,
            x * one <= 0 <==> x <= 0,
    ;
    assert(x * (-one) == -(x * one)) by (nonlinear_arith);
    assert(x * 0 == 0);
    assert(x * one >= 0 <==> x >= 0) by (nonlinear_arith)
        requires
            one > 0;
}

/// The work of the brake is not negative in a step in which the body turns
/// the way it was spinning, and the work done so far does not go down.
///
/// The brake works against the spin the step began with. Where the torques
/// reverse the spin within the step, the body turns with the brake and the
/// work for that step is negative.
pub proof fn lemma_brake_work_accumulates(
    body: Body,
    input: InputSet,
    dt: Fixed,
    so_far: InputSetWork,
)
    requires
        input.brake.torque.raw >= 0,
        body.angular_velocity.raw > 0 ==> body.spec_delta_angle(input, dt).raw >= 0,
        body.angular_velocity.raw < 0 ==> body.spec_delta_angle(input, dt).raw <= 0,
    ensures
        body.spec_work(input, dt).brake.raw >= 0,
        so_far.spec_plus(body.spec_work(input, dt)).brake.raw >= so_far.brake.raw,
{
    let torque = input.brake.torque.spec_neg();
    let spin = body.angular_velocity;
    let turn = body.spec_delta_angle(input, dt);
    lemma_times_unit(torque);
    if input.brake.active {
        if spin.raw > 0 {
            assert(spin.spec_signum() == Fixed::spec_one());
            lemma_product_sign(input.brake.torque, turn);
        } else if spin.raw < 0 {
            assert(spin.spec_signum() == Fixed::spec_one().spec_neg());
            lemma_product_sign(torque, turn);
        } else {
            assert(spin.spec_signum() == Fixed::spec_zero());
            lemma_product_sign(Fixed::spec_zero(), turn);
        }
    } else {
        lemma_product_sign(Fixed::spec_zero(), turn);
    }
}

/// The work of the boost is not negative in a step in which the body turns
/// forward, and the work done so far does not go down.
///
/// The boost drives forward. While the body turns backward the boost works
/// against the turn, and its work is negative.
pub proof fn lemma_boost_work_accumulates(
    body: Body,
    input: InputSet,
    dt: Fixed,
    so_far: InputSetWork,
)
    requires
        input.boost.torque.raw >= 0,
        body.spec_delta_angle(input, dt).raw >= 0,
    ensures
        body.spec_work(input, dt).boost.raw >= 0,
        so_far.spec_plus(body.spec_work(input, dt)).boost.raw >= so_far.boost.raw,
{
    lemma_product_sign(input.boost.spec_applied(), body.spec_delta_angle(input, dt));
}

/// Exactly when the work of a torque is negative: the torque is on, and the
/// body turns against it by enough for the product to come to a whole unit.
/// For the brake that is a turn against the spin the step began with; for
/// the boost, a turn backward.
pub proof fn lemma_negative_work(body: Body, input: InputSet, dt: Fixed)
    requires
        input.brake.torque.raw >= 0,
        input.boost.torque.raw >= 0,
    ensures
        ({
            let turn = body.spec_delta_angle(input, dt).raw as int;
            let spin = body.angular_velocity.raw as int;
            let work = body.spec_work(input, dt);
            &&& work.brake.raw < 0 <==> input.brake.active && (spin > 0 && input.brake.torque.raw
                * turn <= -SCALE || spin < 0 && input.brake.torque.raw * turn >= SCALE)
            &&& work.boost.raw < 0 <==> input.boost.active && input.boost.torque.raw * turn
                <= -SCALE
        }),
{
    let one = SCALE as int;
    let turn = body.spec_delta_angle(input, dt).raw as int;
    let brake = input.brake.torque.raw as int;
    let boost = input.boost.torque.raw as int;
    lemma_times_unit(input.brake.torque.spec_neg());
    lemma_trunc_div_bounds(brake * turn, one);
    lemma_trunc_div_bounds(boost * turn, one);
    lemma_trunc_div_bounds(0 * turn, one);
    assert((-brake) * turn == -(brake * turn)) by (nonlinear_arith);
    assert(0 * turn == 0);
    assert(trunc_div(brake * turn, one) < 0 <==> brake * turn <= -one) by (nonlinear_arith)
        requires
            one > 0,
            brake * turn >= 0 ==> trunc_div(brake * turn, one) >= 0,
            brake * turn <= 0 ==> trunc_div(brake * turn, one) * one - one < brake * turn
                <= trunc_div(brake * turn, one) * one <= 0,
    ;
    assert(trunc_div(boost * turn, one) < 0 <==> boost * turn <= -one) by (nonlinear_arith)
        requires
            one > 0,
            boost * turn >= 0 ==> trunc_div(boost * turn, one) >= 0,
            boost * turn <= 0 ==> trunc_div(boost * turn, one) * one - one < boost * turn
                <= trunc_div(boost * turn, one) * one <= 0,
    ;
    assert(trunc_div(brake * turn, one) > 0 <==> brake * turn >= one) by (nonlinear_arith)
        requires
            one > 0,
            brake * turn <= 0 ==> trunc_div(brake * turn, one) <= 0,
            brake * turn >= 0 ==> 0 <= trunc_div(brake * turn, one) * one <= brake * turn
                < trunc_div(brake * turn, one) * one + one,
    ;
}

/// In a tick of a game whose body turns forward and was not spinning
/// backward, neither brake nor boost does negative work: the work each has
/// done does not go down, and the budget left to them does not go up.
pub proof fn lemma_tick_spends_budget(game: GameView)
    requires
        game.level.input.brake.torque.raw >= 0,
        game.level.input.boost.torque.raw >= 0,
        game.level.body.angular_velocity.raw >= 0,
        game.level.body.spec_delta_angle(game.spec_input(), game.tick_dt).raw >= 0,
    ensures
        game.spec_physics().input_work.brake.raw >= game.input_work.brake.raw,
        game.spec_physics().input_work.boost.raw >= game.input_work.boost.raw,
        game.spec_physics().spec_work_remaining().raw <= game.spec_work_remaining().raw,
        game.spec_physics().level.max_work == game.level.max_work,
{
    reveal(GameView::spec_physics);
    let input = game.spec_input();
    lemma_brake_work_accumulates(game.level.body, input, game.tick_dt, game.input_work);
    lemma_boost_work_accumulates(game.level.body, input, game.tick_dt, game.input_work);
}

/// The spin of the body after `ticks` steps of `dt` under `input`.
pub open spec fn spec_spin_after(body: Body, input: InputSet, dt: Fixed, ticks: nat) -> Fixed
    decreases ticks,
{
    if ticks == 0 {
        body.angular_velocity
    } else {
        spec_spin_after(
            Body { angular_velocity: body.spec_next_velocity(input, dt), ..body },
            input,
            dt,
            (ticks - 1) as nat,
        )
    }
}

/// The setting in which the brake is sure to bring the body to rest: only
/// the brake is on; in one step the brake alone changes the spin by at least
/// one unit; friction times the step is at most the moment of inertia; and
/// the torque of the brake times the step is less than the moment of inertia
/// times the threshold of the brake, so that no step carries the spin across
/// the band in which the brake stops the body.
pub open spec fn brake_settles(body: Body, input: InputSet, dt: Fixed) -> bool {
    &&& body.moment_of_inertia.raw > 0
    &&& body.friction_coefficient.raw >= 0
    &&& dt.raw > 0
    &&& input.brake.active
    &&& !input.motor.active
    &&& !input.boost.active
    &&& input.brake.torque.raw >= 0
    &&& input.brake.torque.spec_div(body.moment_of_inertia).spec_mul(dt).raw >= 1
    &&& body.friction_coefficient.raw * dt.raw <= SCALE * body.moment_of_inertia.raw
    &&& input.brake.torque.raw * dt.raw < body.moment_of_inertia.raw * SNAP_THRESHOLD
}

/// A pull that is bounded through friction, inertia and step as the brake's
/// is stays below the spin plus the threshold.
proof fn lemma_pull_is_short(
    spin: int,
    friction: int,
    torque: int,
    inertia: int,
    dt: int,
    drag: int,
    total: int,
    acceleration: int,
    pull: int,
)
    by (nonlinear_arith)
    requires
        spin > 0,
        friction >= 0,
        torque >= 0,
        inertia > 0,
        dt > 0,
        drag >= 0,
        total >= 0,
        acceleration >= 0,
        pull >= 0,
        0x1_0000_0000 * drag <= friction * spin,
        total <= drag + torque,
        inertia * acceleration <= total * 0x1_0000_0000,
        0x1_0000_0000 * pull <= acceleration * dt,
        friction * dt <= 0x1_0000_0000 * inertia,
        torque * dt < inertia * 4_294_967,
    ensures
        pull < spin + 4_294_967,
{
    let one = 0x1_0000_0000int;
    assert(one * inertia * pull <= inertia * acceleration * dt) by {
        assert(inertia * (one * pull) <= inertia * (acceleration * dt));
    }
    assert(inertia * acceleration * dt <= total * one * dt) by {
        assert((inertia * acceleration) * dt <= (total * one) * dt);
    }
    assert(total * one * dt <= (drag + torque) * one * dt) by {
        assert(total * (one * dt) <= (drag + torque) * (one * dt));
    }
    assert(one * drag * dt <= friction * spin * dt) by {
        assert((one * drag) * dt <= (friction * spin) * dt);
    }
    assert(friction * spin * dt <= one * inertia * spin) by {
        assert((friction * dt) * spin <= (one * inertia) * spin);
    }
    assert(torque * one * dt < inertia * 4_294_967 * one) by {
        assert((torque * dt) * one < (inertia * 4_294_967) * one);
    }
    assert(one * inertia * pull < one * inertia * (spin + 4_294_967));
    if pull >= spin + 4_294_967 {
        assert((one * inertia) * pull >= (one * inertia) * (spin + 4_294_967));
    }
}

/// Where the brake alone speeds a forward spin down by a unit, it speeds a
/// backward spin up by one.
proof fn lemma_brake_pull(torque: Fixed, inertia: Fixed, dt: Fixed)
    requires
        torque.raw >= 0,
        inertia.raw > 0,
        dt.raw > 0,
        torque.spec_div(inertia).spec_mul(dt).raw >= 1,
    ensures
        torque.spec_neg().spec_div(inertia).spec_mul(dt).raw <= -1,
{
    let one = SCALE as int;
    let t = torque.raw as int;
    let i = inertia.raw as int;
    let d = dt.raw as int;
    assert(t * one >= 0 && (-t) * one == -(t * one)) by (nonlinear_arith)
        requires
            t >= 0,
            one > 0;
    lemma_trunc_div_bounds(t * one, i);
    let q = trunc_div(t * one, i);
    let a = saturate(q);
    let b = saturate(-q);
    assert(b <= -a);
    assert(a * d >= 0 && b * d <= -(a * d) && (-a) * d == -(a * d)) by (nonlinear_arith)
        requires
            a >= 0,
            b <= -a,
            d > 0;
    lemma_trunc_div_bounds(a * d, one);
    lemma_trunc_div_monotone(b * d, -(a * d), one);
}

/// One step under a brake that settles: within the threshold of zero the
/// spin becomes zero; beyond it the spin comes nearer to zero by at least one
/// unit, and does not pass the far side of the band about zero.
pub proof fn lemma_brake_step(body: Body, input: InputSet, dt: Fixed)
    requires
        brake_settles(body, input, dt),
    ensures
        ({
            let spin = body.angular_velocity.raw as int;
            let next = body.spec_next_velocity(input, dt).raw as int;
            &&& magnitude(spin) < SNAP_THRESHOLD ==> next == 0
            &&& spin >= SNAP_THRESHOLD ==> -SNAP_THRESHOLD < next <= spin - 1
            &&& spin <= -SNAP_THRESHOLD ==> spin + 1 <= next < SNAP_THRESHOLD
        }),
{
    let one = SCALE as int;
    let spin = body.angular_velocity.raw as int;
    let f = body.friction_coefficient.raw as int;
    let t = input.brake.torque.raw as int;
    let i = body.moment_of_inertia.raw as int;
    let d = dt.raw as int;
    let brake = input.brake.torque.spec_neg();
    lemma_times_unit(brake);
    lemma_brake_pull(input.brake.torque, body.moment_of_inertia, dt);
    if spin >= SNAP_THRESHOLD {
        assert(body.angular_velocity.spec_signum() == Fixed::spec_one());
        // Friction pulls back, by no more than its coefficient times the spin.
        assert((-f) * spin <= 0 && -((-f) * spin) == f * spin) by (nonlinear_arith)
            requires
                f >= 0,
                spin > 0;
        lemma_trunc_div_bounds((-f) * spin, one);
        let drag = body.spec_friction_torque().raw as int;
        assert(drag <= 0 && one * (-drag) <= f * spin) by (nonlinear_arith)
            requires
                drag == saturate(trunc_div((-f) * spin, one)),
                trunc_div((-f) * spin, one) * one - one < (-f) * spin <= trunc_div(
                    (-f) * spin,
                    one,
                ) * one <= 0,
                -((-f) * spin) == f * spin,
                one == 0x1_0000_0000,
        ;
        // The brake pulls back too.
        let total = body.spec_friction_torque().spec_add(brake).spec_add(
            Fixed::spec_zero(),
        ).spec_add(Fixed::spec_zero()).raw as int;
        assert(total == saturate(drag - t));
        assert(total <= -t && -total <= (-drag) + t);
        // So does what they add up to, over the moment of inertia.
        assert(total * one <= (-t) * one && total * one <= 0) by (nonlinear_arith)
            requires
                total <= -t,
                t >= 0,
                one > 0;
        lemma_trunc_div_bounds(total * one, i);
        lemma_trunc_div_monotone(total * one, (-t) * one, i);
        let acceleration = saturate(trunc_div(total * one, i));
        let alone = brake.spec_div(body.moment_of_inertia).raw as int;
        assert(acceleration <= alone && acceleration <= 0);
        assert(i * (-acceleration) <= (-total) * one) by (nonlinear_arith)
            requires
                acceleration == saturate(trunc_div(total * one, i)),
                trunc_div(total * one, i) * i - i < total * one <= trunc_div(total * one, i) * i
                    <= 0,
                i > 0,
        ;
        // And the pull on the spin in one step.
        assert(acceleration * d <= alone * d && acceleration * d <= 0) by (nonlinear_arith)
            requires
                acceleration <= alone,
                acceleration <= 0,
                d > 0;
        lemma_trunc_div_bounds(acceleration * d, one);
        lemma_trunc_div_monotone(acceleration * d, alone * d, one);
        let pull = saturate(trunc_div(acceleration * d, one));
        assert(pull <= -1);
        assert(one * (-pull) <= (-acceleration) * d) by (nonlinear_arith)
            requires
                pull == saturate(trunc_div(acceleration * d, one)),
                trunc_div(acceleration * d, one) * one - one < acceleration * d <= trunc_div(
                    acceleration * d,
                    one,
                ) * one <= 0,
                one == 0x1_0000_0000,
        ;
        lemma_pull_is_short(spin, f, t, i, d, -drag, -total, -acceleration, -pull);
        assert(body.spec_next_velocity(input, dt).raw == saturate(spin + pull));
    } else if spin <= -SNAP_THRESHOLD {
        assert(body.angular_velocity.spec_signum() == Fixed::spec_one().spec_neg());
        assert(brake.spec_neg() == input.brake.torque);
        // Friction pushes forward, by no more than its coefficient times the spin.
        assert((-f) * spin >= 0 && (-f) * spin == f * (-spin)) by (nonlinear_arith)
            requires
                f >= 0,
                spin < 0;
        lemma_trunc_div_bounds((-f) * spin, one);
        let drag = body.spec_friction_torque().raw as int;
        assert(drag >= 0 && one * drag <= f * (-spin)) by (nonlinear_arith)
            requires
                drag == saturate(trunc_div((-f) * spin, one)),
                0 <= trunc_div((-f) * spin, one) * one <= (-f) * spin,
                (-f) * spin == f * (-spin),
                one == 0x1_0000_0000,
        ;
        let total = body.spec_friction_torque().spec_add(input.brake.torque).spec_add(
            Fixed::spec_zero(),
        ).spec_add(Fixed::spec_zero()).raw as int;
        assert(total == saturate(drag + t));
        assert(total >= t && total <= drag + t);
        assert(total * one >= t * one && total * one >= 0) by (nonlinear_arith)
            requires
                total >= t,
                t >= 0,
                one > 0;
        lemma_trunc_div_bounds(total * one, i);
        lemma_trunc_div_monotone(t * one, total * one, i);
        let acceleration = saturate(trunc_div(total * one, i));
        let alone = input.brake.torque.spec_div(body.moment_of_inertia).raw as int;
        assert(acceleration >= alone && acceleration >= 0);
        assert(i * acceleration <= total * one) by (nonlinear_arith)
            requires
                acceleration == saturate(trunc_div(total * one, i)),
                0 <= trunc_div(total * one, i) * i <= total * one,
                i > 0,
        ;
        assert(acceleration * d >= alone * d && acceleration * d >= 0) by (nonlinear_arith)
            requires
                acceleration >= alone,
                acceleration >= 0,
                d > 0;
        lemma_trunc_div_bounds(acceleration * d, one);
        lemma_trunc_div_monotone(alone * d, acceleration * d, one);
        let pull = saturate(trunc_div(acceleration * d, one));
        assert(pull >= 1);
        assert(one * pull <= acceleration * d) by (nonlinear_arith)
            requires
                pull == saturate(trunc_div(acceleration * d, one)),
                0 <= trunc_div(acceleration * d, one) * one <= acceleration * d,
                one == 0x1_0000_0000,
        ;
        lemma_pull_is_short(-spin, f, t, i, d, drag, total, acceleration, pull);
        assert(body.spec_next_velocity(input, dt).raw == saturate(spin + pull));
    }
}

/// Under a brake that settles, the spin is zero after as many steps as its
/// raw magnitude, and after any more.
pub proof fn lemma_rest_after(body: Body, input: InputSet, dt: Fixed, ticks: nat)
    requires
        brake_settles(body, input, dt),
        ticks >= magnitude(body.angular_velocity.raw as int),
    ensures
        spec_spin_after(body, input, dt, ticks).raw == 0,
    decreases ticks,
{
    if ticks > 0 {
        lemma_brake_step(body, input, dt);
        let next = Body { angular_velocity: body.spec_next_velocity(input, dt), ..body };
        lemma_rest_after(next, input, dt, (ticks - 1) as nat);
    }
}

/// Whether the body is at rest after `rest` steps and after any more.
pub open spec fn rests_from(body: Body, input: InputSet, dt: Fixed, rest: nat) -> bool {
    forall|ticks: nat|
        ticks >= rest ==> (#[trigger] spec_spin_after(body, input, dt, ticks)).raw == 0
}

/// A brake that settles brings every spin to exactly zero in finitely many
/// steps, and the spin stays zero from then on.
pub proof fn lemma_brake_converges(body: Body, input: InputSet, dt: Fixed)
    requires
        brake_settles(body, input, dt),
    ensures
        exists|rest: nat| rests_from(body, input, dt, rest),
{
    let rest = magnitude(body.angular_velocity.raw as int) as nat;
    assert forall|ticks: nat| ticks >= rest implies (#[trigger] spec_spin_after(
        body,
        input,
        dt,
        ticks,
    )).raw == 0 by {
        lemma_rest_after(body, input, dt, ticks);
    }
    assert(rests_from(body, input, dt, rest));
}

/// Under a brake that settles the spin never grows: each step leaves its
/// magnitude where it was or smaller, so the body does not swing back and
/// forth about rest.
pub proof fn lemma_brake_never_speeds_up(body: Body, input: InputSet, dt: Fixed)
    requires
        brake_settles(body, input, dt),
    ensures
        magnitude(body.spec_next_velocity(input, dt).raw as int) <= magnitude(
            body.angular_velocity.raw as int,
        ),
{
    lemma_brake_step(body, input, dt);
}

} // verus!
