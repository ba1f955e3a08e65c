//! Where the eye is after a tick, and which way it looks.

use crate::controller::{CameraState, TickInput};
use crate::easing::lemma_tick_keeps_well_formed;
use vstd::prelude::*;

verus! {

/// After a tick the eye is at the target plus `to_camera` times the
/// distance, and `to_camera` is what it was.
pub proof fn lemma_eye_follows_target(state: CameraState, input: TickInput)
    ensures
        state.tick(input).eye() == state.tick(input).target.plus(
            state.to_camera.scaled(state.tick(input).distance),
        ),
        state.tick(input).to_camera == state.to_camera,
{
}

/// After a tick with a smoothing factor from 0 to 1 a well-formed camera
/// looks from its eye straight at its target.
pub proof fn lemma_camera_faces_target_after_tick(state: CameraState, input: TickInput)
    requires
        state.well_formed(),
        0real <= input.lerp_s() <= 1real,
    ensures
        state.to_camera.scaled(-1real).is_unit_along(
            state.tick(input).target.minus(state.tick(input).eye()),
        ),
{
    lemma_tick_keeps_well_formed(state, input);
    lemma_camera_faces_target(state.tick(input));
}

/// A camera whose `to_camera` has length one and whose distance is positive
/// looks from its eye straight at its target: the unit vector from the eye
/// towards the target is `to_camera` reversed.
pub proof fn lemma_camera_faces_target(state: CameraState)
    requires
        state.to_camera.norm_squared() == 1real,
        state.distance > 0real,
    ensures
        state.to_camera.scaled(-1real).is_unit_along(state.target.minus(state.eye())),
{
    let c = state.to_camera;
    let d = state.distance;
    let f = c.scaled(-1real);
    let v = state.target.minus(state.eye());
    assert(v.x == -(c.x * d) && v.y == -(c.y * d) && v.z == -(c.z * d));
    assert(f.norm_squared() == 1real) by (nonlinear_arith)
        requires
            c.x * c.x + c.y * c.y + c.z * c.z == 1real,
            f.x == c.x * -1real,
            f.y == c.y * -1real,
            f.z == c.z * -1real,
            f.norm_squared() == f.x * f.x + f.y * f.y + f.z * f.z,
    ;
    assert(f.parallel(v)) by (nonlinear_arith)
        requires
            f.x == c.x * -1real,
            f.y == c.y * -1real,
            f.z == c.z * -1real,
            v.x == -(c.x * d),
            v.y == -(c.y * d),
            v.z == -(c.z * d),
            f.parallel(v) == (f.x * v.y == f.y * v.x && f.y * v.z == f.z * v.y && f.z * v.x == f.x
                * v.z),
    ;
    assert(f.dot(v) > 0real) by (nonlinear_arith)
        requires
            c.x * c.x + c.y * c.y + c.z * c.z == 1real,
            d > 0real,
            f.x == c.x * -1real,
            f.y == c.y * -1real,
            f.z == c.z * -1real,
            v.x == -(c.x * d),
            v.y == -(c.y * d),
            v.z == -(c.z * d),
            f.dot(v) == f.x * v.x + f.y * v.y + f.z * v.z,
    ;
}

} // verus!
