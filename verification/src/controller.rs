//! The camera controller over the real numbers: the state it keeps, what one
//! tick does to it, and what holds of every tick.
//!
//! This is the arithmetic that a running viewer carries out in floating
//! point. Nothing here is executable and nothing here speaks of rounding: the
//! statements are about the exact formulas. Two quantities are taken as
//! given with each tick, because no rational arithmetic yields them: the zoom
//! factor, a power with a real exponent, and the unit vector along the pan,
//! which needs a square root. What is asked of them is in
//! [`TickInput::valid`].

use crate::pan::{ArrowKeys, PanOffset};
use crate::reals::{clamp, lerp, lemma_product_with_zero};
use crate::vector::Vector;
use vstd::prelude::*;

verus! {

/// The planned distance is never less than this.
pub open spec fn min_distance() -> real {
    2real
}

/// The planned distance is never more than this.
pub open spec fn max_distance() -> real {
    40real
}

/// A unit pan is divided by this before it is scaled by the distance.
pub open spec fn pan_divisor() -> real {
    50real
}

/// The smoothing factor of a tick is its duration in seconds times this.
pub open spec fn lerp_rate() -> real {
    20real
}

impl PanOffset {
    /// The offset as a vector in the XZ plane.
    pub open spec fn as_vector(self) -> Vector {
        Vector { x: self.x as real, y: 0real, z: self.z as real }
    }

    /// `dir` is what normalising leaves of this offset: the unit vector along
    /// it where the offset is longer than the threshold, the offset itself
    /// where it is not.
    pub open spec fn normalizes_to(self, dir: Vector) -> bool {
        if self.exceeds_epsilon() {
            dir.is_unit_along(self.as_vector())
        } else {
            dir == self.as_vector()
        }
    }
}

/// What the controller keeps for one camera.
pub struct CameraState {
    /// The point that the camera looks at.
    pub target: Vector,
    /// The direction from the target to the eye. It has length one.
    pub to_camera: Vector,
    /// The distance from the target to the eye.
    pub distance: real,
    /// The point that `target` is moving towards.
    pub plan_target: Vector,
    /// The distance that `distance` is moving towards.
    pub plan_distance: real,
}

/// What one tick is given.
pub struct TickInput {
    /// Seconds since the tick before.
    pub dt: real,
    /// The zoom factor: the wheel's base raised to the wheel's movement
    /// since the tick before. It is 1 where the wheel did not move, more
    /// where it moved up, less where it moved down.
    pub scroll_mult: real,
    /// The arrow keys held at this tick.
    pub keys: ArrowKeys,
    /// The pan direction of `keys`, normalised.
    pub pan_dir: Vector,
}

/// The input of a tick of `dt` seconds in which the wheel does not move and
/// no arrow key is held.
pub open spec fn idle_input(dt: real) -> TickInput {
    TickInput {
        dt,
        scroll_mult: 1real,
        keys: ArrowKeys { up: false, down: false, left: false, right: false },
        pan_dir: Vector::zero(),
    }
}

impl TickInput {
    /// Time does not run backwards, a power of a positive base is positive,
    /// and the pan direction is that of the keys.
    pub open spec fn valid(self) -> bool {
        &&& self.dt >= 0real
        &&& self.scroll_mult > 0real
        &&& self.keys.spec_offset().normalizes_to(self.pan_dir)
    }

    /// The wheel did not move and no arrow key is held.
    pub open spec fn idle(self) -> bool {
        &&& self.scroll_mult == 1real
        &&& self.keys.idle()
    }

    /// The smoothing factor of this tick.
    pub open spec fn lerp_s(self) -> real {
        self.dt * lerp_rate()
    }

    /// The pan of this tick for each unit of distance.
    pub open spec fn pan_impulse(self) -> Vector {
        self.pan_dir.scaled(1real / pan_divisor())
    }
}

impl CameraState {
    /// A camera at rest: the plan is where the camera is.
    pub open spec fn new(target: Vector, to_camera: Vector, distance: real) -> CameraState {
        CameraState { target, to_camera, distance, plan_target: target, plan_distance: distance }
    }

    /// The planned distance is within its range. It is after every tick.
    pub open spec fn plan_in_range(self) -> bool {
        min_distance() <= self.plan_distance <= max_distance()
    }

    /// What holds of a camera from its making on, as long as no tick has a
    /// smoothing factor above 1: `to_camera` has length one, the eye is off
    /// the target, and the planned distance is within its range.
    pub open spec fn well_formed(self) -> bool {
        &&& self.to_camera.norm_squared() == 1real
        &&& self.distance > 0real
        &&& self.plan_in_range()
    }

    /// The camera has arrived where it was planned to be.
    pub open spec fn settled(self) -> bool {
        self.target == self.plan_target && self.distance == self.plan_distance
    }

    /// Where the eye is: `distance` away from the target along `to_camera`.
    pub open spec fn eye(self) -> Vector {
        self.target.plus(self.to_camera.scaled(self.distance))
    }

    /// The state after one tick.
    pub open spec fn tick(self, input: TickInput) -> CameraState {
        let plan_distance = clamp(
            self.plan_distance * input.scroll_mult,
            min_distance(),
            max_distance(),
        );
        let distance = lerp(self.distance, plan_distance, input.lerp_s());
        let plan_target = self.plan_target.plus(input.pan_impulse().scaled(distance));
        let target = self.target.lerp(plan_target, input.lerp_s());
        CameraState { target, to_camera: self.to_camera, distance, plan_target, plan_distance }
    }

    /// The state after the ticks of `inputs`, first to last.
    pub open spec fn run(self, inputs: Seq<TickInput>) -> CameraState
        decreases inputs.len(),
    {
        if inputs.len() == 0 {
            self
        } else {
            self.run(inputs.drop_last()).tick(inputs.last())
        }
    }
}

/// After a tick the planned distance is within its range, whatever the state
/// and the input were.
pub proof fn lemma_tick_clamps_plan_distance(state: CameraState, input: TickInput)
    ensures
        state.tick(input).plan_in_range(),
{
}

/// After any run of at least one tick the planned distance is within its
/// range.
pub proof fn lemma_run_clamps_plan_distance(state: CameraState, inputs: Seq<TickInput>)
    requires
        inputs.len() > 0,
    ensures
        state.run(inputs).plan_in_range(),
{
}

/// A tick never turns the view: `to_camera` after any run is what it was.
pub proof fn lemma_run_keeps_to_camera(state: CameraState, inputs: Seq<TickInput>)
    ensures
        state.run(inputs).to_camera == state.to_camera,
    decreases inputs.len(),
{
    if inputs.len() > 0 {
        lemma_run_keeps_to_camera(state, inputs.drop_last());
    }
}

/// A tick without input leaves the plan alone, provided the planned distance
/// is within its range, as it is after any tick.
pub proof fn lemma_idle_tick_keeps_plan(state: CameraState, input: TickInput)
    requires
        input.valid(),
        input.idle(),
        state.plan_in_range(),
    ensures
        state.tick(input).plan_distance == state.plan_distance,
        state.tick(input).plan_target == state.plan_target,
{
    crate::pan::lemma_idle_keys_give_no_pan(input.keys);
    assert(input.pan_dir == Vector::zero());
    lemma_product_with_zero(1real / pan_divisor());
    assert(input.pan_impulse() == Vector::zero());
    lemma_product_with_zero(state.tick(input).distance);
}

/// A camera that has arrived and gets no input stays exactly as it is.
pub proof fn lemma_settled_camera_is_a_fixed_point(state: CameraState, input: TickInput)
    requires
        input.valid(),
        input.idle(),
        state.plan_in_range(),
        state.settled(),
    ensures
        state.tick(input) == state,
{
    lemma_idle_tick_keeps_plan(state, input);
    lemma_product_with_zero(input.lerp_s());
}

/// Idle input is valid input for any duration that is not negative.
pub proof fn lemma_idle_input_is_valid(dt: real)
    requires
        dt >= 0real,
    ensures
        idle_input(dt).valid(),
        idle_input(dt).idle(),
{
    crate::pan::lemma_idle_keys_give_no_pan(idle_input(dt).keys);
}

} // verus!
