//! Panning: how far the arrow keys move the planned target.

use crate::controller::{pan_divisor, CameraState, TickInput};
use crate::reals::{lemma_product_associates, lemma_product_with_one, lemma_product_with_zero};
use crate::vector::{lemma_scaled_norm, Vector};
use vstd::prelude::*;

verus! {

/// A tick moves the planned target by the pan impulse times the distance as
/// it is after this tick's easing.
pub proof fn lemma_tick_pans_by_impulse_times_distance(state: CameraState, input: TickInput)
    ensures
        state.tick(input).plan_target.minus(state.plan_target) == input.pan_impulse().scaled(
            state.tick(input).distance,
        ),
{
}

/// The pan impulse is the zero vector where the keys give no pan, and one
/// fiftieth long where they give one, whichever way it points.
pub proof fn lemma_pan_impulse_length(input: TickInput)
    requires
        input.valid(),
    ensures
        input.keys.spec_offset().is_zero() ==> input.pan_impulse() == Vector::zero(),
        !input.keys.spec_offset().is_zero() ==> input.pan_impulse().norm_squared() == (1real
            / pan_divisor()) * (1real / pan_divisor()),
{
    crate::pan::lemma_every_pan_is_normalized(input.keys);
    let k = 1real / pan_divisor();
    if input.keys.spec_offset().is_zero() {
        assert(input.pan_dir == Vector::zero());
        lemma_product_with_zero(k);
    } else {
        lemma_scaled_norm(input.pan_dir, k);
        lemma_product_with_one(k * k);
    }
}

/// A pan never lifts or lowers the planned target: it moves in the XZ plane.
pub proof fn lemma_pan_stays_level(state: CameraState, input: TickInput)
    requires
        input.valid(),
    ensures
        state.tick(input).plan_target.y == state.plan_target.y,
{
    crate::pan::lemma_every_pan_is_normalized(input.keys);
    crate::pan::lemma_offset_components(input.keys);
    let o = input.keys.spec_offset();
    let u = input.pan_dir;
    if !o.is_zero() {
        let a = o.as_vector();
        assert(u.parallel(a));
        assert(a.x != 0real || a.z != 0real);
        lemma_level_direction(u.x, u.y, u.z, a.x, a.z);
    }
    assert(u.y == 0real);
    lemma_product_with_zero(1real / pan_divisor());
    lemma_product_with_zero(state.tick(input).distance);
}

/// A vector on one line with a level vector that is not zero is level.
proof fn lemma_level_direction(ux: real, uy: real, uz: real, ax: real, az: real)
    by (nonlinear_arith)
    requires
        ux * 0real == uy * ax,
        uy * az == uz * 0real,
        ax != 0real || az != 0real,
    ensures
        uy == 0real,
{
}

/// Every pan that is not zero moves the planned target equally far: by one
/// fiftieth of the distance, along one axis or along a diagonal.
pub proof fn lemma_pan_is_equally_fast_in_every_direction(state: CameraState, input: TickInput)
    requires
        input.valid(),
        !input.keys.spec_offset().is_zero(),
    ensures
        state.tick(input).plan_target.minus(state.plan_target).norm_squared() == (state.tick(
            input,
        ).distance / pan_divisor()) * (state.tick(input).distance / pan_divisor()),
{
    crate::pan::lemma_every_pan_is_normalized(input.keys);
    let d = state.tick(input).distance;
    let k = 1real / pan_divisor();
    lemma_tick_pans_by_impulse_times_distance(state, input);
    lemma_scaled_norm(input.pan_dir, k);
    lemma_scaled_norm(input.pan_impulse(), d);
    lemma_square_of_fraction(d, k);
}

proof fn lemma_square_of_fraction(d: real, k: real)
    by (nonlinear_arith)
    requires
        k == 1real / 50real,
    ensures
        d * d * (k * k * 1real) == (d / 50real) * (d / 50real),
{
}

/// Two ticks that differ in nothing but which arrow keys are held, neither
/// holding none or only keys that cancel, move the planned target equally
/// far.
pub proof fn lemma_diagonal_pan_is_as_fast_as_cardinal(
    state: CameraState,
    one: TickInput,
    other: TickInput,
)
    requires
        one.valid(),
        other.valid(),
        one.dt == other.dt,
        one.scroll_mult == other.scroll_mult,
        !one.keys.spec_offset().is_zero(),
        !other.keys.spec_offset().is_zero(),
    ensures
        state.tick(one).plan_target.minus(state.plan_target).norm_squared() == state.tick(
            other,
        ).plan_target.minus(state.plan_target).norm_squared(),
{
    lemma_pan_is_equally_fast_in_every_direction(state, one);
    lemma_pan_is_equally_fast_in_every_direction(state, other);
}

/// The pan grows in proportion to the distance: of two cameras given the
/// same input, the one whose distance after easing is `ratio` times the
/// other's has its planned target moved `ratio` times as far, the same way.
pub proof fn lemma_pan_is_linear_in_distance(
    near: CameraState,
    far: CameraState,
    input: TickInput,
    ratio: real,
)
    requires
        far.tick(input).distance == near.tick(input).distance * ratio,
    ensures
        far.tick(input).plan_target.minus(far.plan_target) == near.tick(input).plan_target.minus(
            near.plan_target,
        ).scaled(ratio),
{
    let i = input.pan_impulse();
    let d = near.tick(input).distance;
    lemma_tick_pans_by_impulse_times_distance(near, input);
    lemma_tick_pans_by_impulse_times_distance(far, input);
    lemma_product_associates(i.x, d, ratio);
    lemma_product_associates(i.y, d, ratio);
    lemma_product_associates(i.z, d, ratio);
}

} // verus!
