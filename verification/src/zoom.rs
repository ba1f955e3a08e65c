//! Zoom: how the wheel moves the planned distance.

use crate::controller::{max_distance, min_distance, CameraState, TickInput};
use vstd::prelude::*;

verus! {

/// The wheel's base: one notch up multiplies the planned distance by 11/10,
/// one notch down divides it by that.
pub open spec fn scroll_base() -> real {
    11real / 10real
}

/// The zoom factor of a whole number of notches: the base to that power.
pub open spec fn zoom_factor(notches: int) -> real
    decreases
            (if notches >= 0 {
                notches
            } else {
                -notches
            }),
{
    if notches == 0 {
        1real
    } else if notches > 0 {
        zoom_factor(notches - 1) * scroll_base()
    } else {
        zoom_factor(notches + 1) / scroll_base()
    }
}

/// The zoom factor is positive; it is 1 for no notch, more than 1 for notches
/// up and less than 1 for notches down.
pub proof fn lemma_zoom_factor_follows_the_wheel(notches: int)
    ensures
        zoom_factor(notches) > 0real,
        notches == 0 ==> zoom_factor(notches) == 1real,
        notches > 0 ==> zoom_factor(notches) > 1real,
        notches < 0 ==> zoom_factor(notches) < 1real,
    decreases
            (if notches >= 0 {
                notches
            } else {
                -notches
            }),
{
    if notches > 0 {
        lemma_zoom_factor_follows_the_wheel(notches - 1);
        let f = zoom_factor(notches - 1);
        assert(f * (11real / 10real) > 1real) by (nonlinear_arith)
            requires
                f >= 1real,
        ;
    } else if notches < 0 {
        lemma_zoom_factor_follows_the_wheel(notches + 1);
        let f = zoom_factor(notches + 1);
        assert(0real < f / (11real / 10real) < 1real) by (nonlinear_arith)
            requires
                0real < f <= 1real,
        ;
    }
}

/// A zoom factor above 1 never shrinks the planned distance, and grows it
/// unless it is at the top of its range already: the new plan is the old one
/// times the factor, or the top of the range if that is less.
pub proof fn lemma_wheel_up_grows_plan(state: CameraState, input: TickInput)
    requires
        state.plan_in_range(),
        input.scroll_mult > 1real,
    ensures
        state.tick(input).plan_distance >= state.plan_distance,
        state.plan_distance < max_distance() ==> state.tick(input).plan_distance
            > state.plan_distance,
        state.tick(input).plan_distance == state.plan_distance * input.scroll_mult
            || state.tick(input).plan_distance == max_distance(),
{
    let p = state.plan_distance;
    let m = input.scroll_mult;
    assert(p * m > p) by (nonlinear_arith)
        requires
            p >= 2real,
            m > 1real,
    ;
}

/// A zoom factor below 1 never grows the planned distance, and shrinks it
/// unless it is at the bottom of its range already: the new plan is the old
/// one times the factor, or the bottom of the range if that is more.
pub proof fn lemma_wheel_down_shrinks_plan(state: CameraState, input: TickInput)
    requires
        state.plan_in_range(),
        0real < input.scroll_mult < 1real,
    ensures
        state.tick(input).plan_distance <= state.plan_distance,
        state.plan_distance > min_distance() ==> state.tick(input).plan_distance
            < state.plan_distance,
        state.tick(input).plan_distance == state.plan_distance * input.scroll_mult
            || state.tick(input).plan_distance == min_distance(),
{
    let p = state.plan_distance;
    let m = input.scroll_mult;
    assert(0real < p * m < p) by (nonlinear_arith)
        requires
            p >= 2real,
            0real < m < 1real,
    ;
}

/// All else equal, more zoom never plans a shorter distance.
pub proof fn lemma_plan_grows_with_zoom_factor(state: CameraState, less: TickInput, more: TickInput)
    requires
        state.plan_distance >= 0real,
        less.scroll_mult <= more.scroll_mult,
    ensures
        state.tick(less).plan_distance <= state.tick(more).plan_distance,
{
    let p = state.plan_distance;
    let a = less.scroll_mult;
    let b = more.scroll_mult;
    assert(p * a <= p * b) by (nonlinear_arith)
        requires
            p >= 0real,
            a <= b,
    ;
}

} // verus!
