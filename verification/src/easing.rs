//! Easing: how the camera follows its plan, tick by tick, and how it closes
//! in on it once input has ceased.

use crate::controller::{
    idle_input, lemma_idle_input_is_valid, lemma_idle_tick_keeps_plan, max_distance, min_distance,
    CameraState, TickInput,
};
use crate::reals::{
    lemma_enough_steps, lemma_fraction_of_fraction, lemma_fraction_shrinks, lemma_gap_after_lerp,
    lemma_lerp_stays_between, lemma_magnitude_of_product, lemma_more_steps_are_enough,
    lemma_power_falls, lemma_product_associates, lemma_product_commutes, lemma_product_with_one,
    lemma_product_with_zero, lemma_small_after, magnitude, power,
};
use crate::vector::{lemma_norm_is_not_negative, lemma_scaled_norm};
use vstd::prelude::*;

verus! {

impl CameraState {
    /// How far the distance is from its plan.
    pub open spec fn distance_error(self) -> real {
        magnitude(self.distance - self.plan_distance)
    }

    /// The square of how far the target is from its plan.
    pub open spec fn target_error_squared(self) -> real {
        self.target.minus(self.plan_target).norm_squared()
    }
}

/// With a smoothing factor from 0 to 1 the distance stays positive: the eye
/// never passes through the target.
pub proof fn lemma_distance_stays_positive(state: CameraState, input: TickInput)
    requires
        state.distance > 0real,
        0real <= input.lerp_s() <= 1real,
    ensures
        state.tick(input).distance > 0real,
{
    let d = state.distance;
    let p = state.tick(input).plan_distance;
    let s = input.lerp_s();
    assert(d + (p - d) * s > 0real) by (nonlinear_arith)
        requires
            d > 0real,
            p >= 2real,
            0real <= s <= 1real,
    ;
}

/// A tick of no duration moves neither the distance nor the target,
/// whatever it does to the plan.
pub proof fn lemma_zero_duration_moves_nothing(state: CameraState, input: TickInput)
    requires
        input.dt == 0real,
    ensures
        state.tick(input).distance == state.distance,
        state.tick(input).target == state.target,
{
    let after = state.tick(input);
    let gap = after.plan_target.minus(state.target);
    lemma_product_commutes(after.plan_distance - state.distance, 0real);
    lemma_product_commutes(gap.x, 0real);
    lemma_product_commutes(gap.y, 0real);
    lemma_product_commutes(gap.z, 0real);
    lemma_product_with_zero(after.plan_distance - state.distance);
    lemma_product_with_zero(gap.x);
    lemma_product_with_zero(gap.y);
    lemma_product_with_zero(gap.z);
}

/// The smoothing factor is not capped. A tick without input that is long
/// enough for it to pass 1 carries the distance beyond its plan, to the
/// other side of it.
pub proof fn lemma_long_tick_overshoots(state: CameraState, input: TickInput)
    requires
        input.valid(),
        input.idle(),
        state.plan_in_range(),
        input.lerp_s() > 1real,
    ensures
        state.distance > state.plan_distance ==> state.tick(input).distance
            < state.plan_distance,
        state.distance < state.plan_distance ==> state.tick(input).distance
            > state.plan_distance,
{
    lemma_idle_tick_scales_the_gap(state, input);
    lemma_sign_flips(state.distance - state.plan_distance, 1real - input.lerp_s());
}

/// A product with a negative factor has the other sign.
proof fn lemma_sign_flips(g: real, r: real)
    by (nonlinear_arith)
    requires
        r < 0real,
    ensures
        g > 0real ==> g * r < 0real,
        g < 0real ==> g * r > 0real,
{
}

/// A tick with a smoothing factor from 0 to 1 leaves a well-formed camera
/// well-formed.
pub proof fn lemma_tick_keeps_well_formed(state: CameraState, input: TickInput)
    requires
        state.well_formed(),
        0real <= input.lerp_s() <= 1real,
    ensures
        state.tick(input).well_formed(),
{
    lemma_distance_stays_positive(state, input);
}

/// With a smoothing factor from 0 to 1 a distance within the plan's range
/// stays within it: easing towards a clamped plan does not overshoot.
pub proof fn lemma_distance_stays_in_range(state: CameraState, input: TickInput)
    requires
        min_distance() <= state.distance <= max_distance(),
        0real <= input.lerp_s() <= 1real,
    ensures
        min_distance() <= state.tick(input).distance <= max_distance(),
{
    lemma_lerp_stays_between(
        state.distance,
        state.tick(input).plan_distance,
        input.lerp_s(),
        min_distance(),
        max_distance(),
    );
}

/// One tick without input leaves the plan alone and multiplies what
/// separates the camera from it by `1 - s`, where `s` is the tick's
/// smoothing factor.
pub proof fn lemma_idle_tick_scales_the_gap(state: CameraState, input: TickInput)
    requires
        input.valid(),
        input.idle(),
        state.plan_in_range(),
    ensures
        state.tick(input).plan_distance == state.plan_distance,
        state.tick(input).plan_target == state.plan_target,
        state.tick(input).distance - state.plan_distance == (state.distance - state.plan_distance)
            * (1real - input.lerp_s()),
        state.tick(input).target.minus(state.plan_target) == state.target.minus(
            state.plan_target,
        ).scaled(1real - input.lerp_s()),
{
    lemma_idle_tick_keeps_plan(state, input);
    let s = input.lerp_s();
    lemma_gap_after_lerp(state.distance, state.plan_distance, s);
    lemma_gap_after_lerp(state.target.x, state.plan_target.x, s);
    lemma_gap_after_lerp(state.target.y, state.plan_target.y, s);
    lemma_gap_after_lerp(state.target.z, state.plan_target.z, s);
}

/// One tick without input, with a smoothing factor above 0 and at most 1,
/// brings the distance and the target nearer to their plans, or leaves them
/// there: neither gap grows, and a gap that is not zero shrinks.
pub proof fn lemma_idle_tick_closes_in(state: CameraState, input: TickInput)
    requires
        input.valid(),
        input.idle(),
        state.plan_in_range(),
        0real < input.lerp_s() <= 1real,
    ensures
        state.tick(input).distance_error() <= state.distance_error(),
        state.distance_error() > 0real ==> state.tick(input).distance_error()
            < state.distance_error(),
        state.tick(input).target_error_squared() <= state.target_error_squared(),
        state.target_error_squared() > 0real ==> state.tick(input).target_error_squared()
            < state.target_error_squared(),
{
    lemma_idle_tick_scales_the_gap(state, input);
    let r = 1real - input.lerp_s();
    let g = state.distance - state.plan_distance;
    lemma_magnitude_of_product(g, r);
    lemma_fraction_shrinks(magnitude(g), r);
    let v = state.target.minus(state.plan_target);
    lemma_scaled_norm(v, r);
    lemma_norm_is_not_negative(v);
    lemma_fraction_shrinks(r, r);
    lemma_fraction_shrinks(v.norm_squared(), r * r);
    lemma_product_commutes(r * r, v.norm_squared());
}

/// Every input of the run is valid, asks nothing of the camera and has a
/// smoothing factor above 0 and at most 1. The ticks need not be equally
/// long.
pub open spec fn quiet(inputs: Seq<TickInput>) -> bool {
    forall|i: int|
        0 <= i < inputs.len() ==> {
            &&& (#[trigger] inputs[i]).valid()
            &&& inputs[i].idle()
            &&& 0real < inputs[i].lerp_s() <= 1real
        }
}

/// Over a run of quiet ticks, however long each is, the plan stays where it
/// is and neither gap ever grows.
pub proof fn lemma_quiet_run_closes_in(state: CameraState, inputs: Seq<TickInput>)
    requires
        state.plan_in_range(),
        quiet(inputs),
    ensures
        state.run(inputs).plan_distance == state.plan_distance,
        state.run(inputs).plan_target == state.plan_target,
        state.run(inputs).distance_error() <= state.distance_error(),
        state.run(inputs).target_error_squared() <= state.target_error_squared(),
    decreases inputs.len(),
{
    if inputs.len() > 0 {
        let before = inputs.drop_last();
        assert forall|i: int| 0 <= i < before.len() implies {
            &&& (#[trigger] before[i]).valid()
            &&& before[i].idle()
            &&& 0real < before[i].lerp_s() <= 1real
        } by {
            assert(before[i] == inputs[i]);
        }
        lemma_quiet_run_closes_in(state, before);
        let last = inputs[inputs.len() - 1];
        assert(last.valid() && last.idle() && 0real < last.lerp_s() <= 1real);
        lemma_idle_tick_scales_the_gap(state.run(before), last);
        lemma_idle_tick_closes_in(state.run(before), last);
    }
}

/// Every input of the run is quiet and its smoothing factor is at least
/// `floor`.
pub open spec fn quiet_and_brisk(inputs: Seq<TickInput>, floor: real) -> bool {
    &&& quiet(inputs)
    &&& forall|i: int| 0 <= i < inputs.len() ==> (#[trigger] inputs[i]).lerp_s() >= floor
}

/// Over a run of quiet ticks whose smoothing factors are all at least
/// `floor`, each gap is at most what it was at the start times the power of
/// `1 - floor` that has the number of ticks for its exponent.
pub proof fn lemma_quiet_run_is_bounded(state: CameraState, inputs: Seq<TickInput>, floor: real)
    requires
        state.plan_in_range(),
        0real < floor <= 1real,
        quiet_and_brisk(inputs, floor),
    ensures
        state.run(inputs).plan_distance == state.plan_distance,
        state.run(inputs).plan_target == state.plan_target,
        0real <= state.run(inputs).distance_error() <= state.distance_error() * power(
            1real - floor,
            inputs.len(),
        ),
        0real <= state.run(inputs).target_error_squared() <= state.target_error_squared() * power(
            1real - floor,
            inputs.len(),
        ),
    decreases inputs.len(),
{
    let r = 1real - floor;
    lemma_norm_is_not_negative(state.target.minus(state.plan_target));
    if inputs.len() == 0 {
        lemma_product_with_one(state.distance_error());
        lemma_product_with_one(state.target_error_squared());
    } else {
        let before = inputs.drop_last();
        assert forall|i: int| 0 <= i < before.len() implies {
            &&& (#[trigger] before[i]).valid()
            &&& before[i].idle()
            &&& 0real < before[i].lerp_s() <= 1real
            &&& before[i].lerp_s() >= floor
        } by {
            assert(before[i] == inputs[i]);
        }
        lemma_quiet_run_is_bounded(state, before, floor);
        let last = inputs[inputs.len() - 1];
        assert(last.valid() && last.idle() && floor <= last.lerp_s() <= 1real);
        let mid = state.run(before);
        let f = 1real - last.lerp_s();
        let p = power(r, before.len());
        lemma_idle_tick_scales_the_gap(mid, last);
        lemma_magnitude_of_product(mid.distance - mid.plan_distance, f);
        lemma_scaled_norm(mid.target.minus(mid.plan_target), f);
        lemma_norm_is_not_negative(mid.target.minus(mid.plan_target));
        lemma_product_commutes(f * f, mid.target_error_squared());
        lemma_fraction_of_fraction(mid.target_error_squared(), f);
        lemma_bound_step(mid.distance_error(), state.distance_error(), p, f, r);
        lemma_bound_step(mid.target_error_squared(), state.target_error_squared(), p, f, r);
        lemma_norm_is_not_negative(
            state.run(inputs).target.minus(state.run(inputs).plan_target),
        );
    }
}

/// From a bound after some ticks to the bound after one more.
proof fn lemma_bound_step(a: real, b: real, p: real, f: real, r: real)
    by (nonlinear_arith)
    requires
        0real <= a <= b * p,
        0real <= f <= r,
    ensures
        0real <= a * f <= b * (p * r),
{
}

/// Quiet ticks bring the camera as near to its plan as one likes, however
/// long each tick is, as long as their smoothing factors stay at or above
/// some `floor` above 0: for every `eps` above 0 there is a number of ticks
/// after which the distance is within `eps` of its plan and the target
/// within `eps` of its own.
pub proof fn lemma_quiet_run_converges(state: CameraState, floor: real, eps: real) -> (from: nat)
    requires
        state.plan_in_range(),
        0real < floor <= 1real,
        eps > 0real,
    ensures
        forall|inputs: Seq<TickInput>|
            quiet_and_brisk(inputs, floor) && inputs.len() >= from ==> (#[trigger] state.run(
                inputs,
            )).distance_error() < eps && state.run(inputs).target_error_squared() < eps * eps,
{
    let r = 1real - floor;
    let e1 = state.distance_error();
    let e2 = state.target_error_squared();
    let eps2 = eps * eps;
    lemma_norm_is_not_negative(state.target.minus(state.plan_target));
    lemma_square_is_positive(eps);
    let n1 = lemma_enough_steps(e1, floor, eps);
    let n2 = lemma_enough_steps(e2, floor, eps2);
    let from = if n1 >= n2 {
        n1
    } else {
        n2
    };
    assert forall|inputs: Seq<TickInput>|
        quiet_and_brisk(inputs, floor) && inputs.len() >= from implies (#[trigger] state.run(
        inputs,
    )).distance_error() < eps && state.run(inputs).target_error_squared() < eps2 by {
        let n = inputs.len() as real;
        let p = power(r, inputs.len());
        lemma_quiet_run_is_bounded(state, inputs, floor);
        lemma_power_falls(r, inputs.len());
        lemma_more_steps_are_enough(n1 as real, n, floor, eps, e1);
        lemma_more_steps_are_enough(n2 as real, n, floor, eps2, e2);
        lemma_small_after(e1, p, floor, n, eps);
        lemma_small_after(e2, p, floor, n, eps2);
    }
    from
}

proof fn lemma_square_is_positive(a: real)
    by (nonlinear_arith)
    requires
        a > 0real,
    ensures
        a * a > 0real,
{
}

/// `ticks` inputs of `dt` seconds each in which nothing is asked of the
/// camera.
pub open spec fn idle_inputs(dt: real, ticks: nat) -> Seq<TickInput> {
    Seq::new(ticks, |i: int| idle_input(dt))
}

impl CameraState {
    /// The state after `ticks` ticks of `dt` seconds each without input.
    pub open spec fn rest(self, dt: real, ticks: nat) -> CameraState
        decreases ticks,
    {
        if ticks == 0 {
            self
        } else {
            self.rest(dt, (ticks - 1) as nat).tick(idle_input(dt))
        }
    }
}

/// Resting for some ticks is running that many idle inputs.
pub proof fn lemma_rest_is_a_run(state: CameraState, dt: real, ticks: nat)
    ensures
        state.rest(dt, ticks) == state.run(idle_inputs(dt, ticks)),
    decreases ticks,
{
    if ticks > 0 {
        let before = (ticks - 1) as nat;
        lemma_rest_is_a_run(state, dt, before);
        assert(idle_inputs(dt, ticks).drop_last() =~= idle_inputs(dt, before));
        assert(idle_inputs(dt, ticks).last() == idle_input(dt));
    }
}

/// Ticks without input never move the plan, and each multiplies what
/// separates the camera from it by `1 - s`, where `s` is the smoothing
/// factor of a tick.
pub proof fn lemma_rest_scales_the_gap(state: CameraState, dt: real, ticks: nat)
    requires
        dt >= 0real,
        state.plan_in_range(),
    ensures
        state.rest(dt, ticks).plan_distance == state.plan_distance,
        state.rest(dt, ticks).plan_target == state.plan_target,
        state.rest(dt, ticks).to_camera == state.to_camera,
        state.rest(dt, ticks).distance - state.plan_distance == (state.distance
            - state.plan_distance) * power(1real - idle_input(dt).lerp_s(), ticks),
        state.rest(dt, ticks).target.minus(state.plan_target) == state.target.minus(
            state.plan_target,
        ).scaled(power(1real - idle_input(dt).lerp_s(), ticks)),
    decreases ticks,
{
    let r = 1real - idle_input(dt).lerp_s();
    let g = state.distance - state.plan_distance;
    let v = state.target.minus(state.plan_target);
    if ticks == 0 {
        lemma_product_with_one(g);
        lemma_product_with_one(v.x);
        lemma_product_with_one(v.y);
        lemma_product_with_one(v.z);
    } else {
        let before = (ticks - 1) as nat;
        let p = power(r, before);
        lemma_rest_scales_the_gap(state, dt, before);
        lemma_idle_input_is_valid(dt);
        lemma_idle_tick_scales_the_gap(state.rest(dt, before), idle_input(dt));
        lemma_product_associates(g, p, r);
        lemma_product_associates(v.x, p, r);
        lemma_product_associates(v.y, p, r);
        lemma_product_associates(v.z, p, r);
    }
}

} // verus!
