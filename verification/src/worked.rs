//! Worked examples: single ticks of sixty to the second, from a camera five
//! units from the origin that looks down on it at 45 degrees, with their
//! exact results.

use crate::controller::{idle_input, CameraState, TickInput};
use crate::pan::ArrowKeys;
use crate::vector::Vector;
use crate::zoom::zoom_factor;
use vstd::prelude::*;

verus! {

/// `h` is the positive root of one half: what each of the two components of
/// a unit vector along a diagonal measures.
pub open spec fn is_half_root(h: real) -> bool {
    h > 0real && 2real * h * h == 1real
}

/// The camera at rest five units from the origin, up and back from it in
/// equal parts.
pub open spec fn start(h: real) -> CameraState {
    CameraState::new(Vector::zero(), Vector { x: 0real, y: h, z: h }, 5real)
}

/// One sixtieth of a second.
pub open spec fn frame() -> real {
    1real / 60real
}

/// The input of one frame with the given keys and wheel factor.
pub open spec fn frame_input(keys: ArrowKeys, scroll_mult: real, pan_dir: Vector) -> TickInput {
    TickInput { dt: frame(), scroll_mult, keys, pan_dir }
}

/// Only the Right key is held.
pub open spec fn right_only() -> ArrowKeys {
    ArrowKeys { up: false, down: false, left: false, right: true }
}

/// Up and Right are held.
pub open spec fn up_and_right() -> ArrowKeys {
    ArrowKeys { up: true, down: false, left: false, right: true }
}

/// The starting camera is well-formed and at rest.
pub proof fn example_start_is_well_formed(h: real)
    requires
        is_half_root(h),
    ensures
        start(h).well_formed(),
        start(h).settled(),
{
    lemma_half_root_squares(h);
}

/// A frame without input leaves the starting camera as it is, with its eye
/// at five times `(0, h, h)`.
pub proof fn example_idle_frame(h: real)
    requires
        is_half_root(h),
    ensures
        start(h).tick(idle_input(frame())) == start(h),
        start(h).eye() == (Vector { x: 0real, y: h * 5real, z: h * 5real }),
{
    crate::controller::lemma_idle_input_is_valid(frame());
    crate::controller::lemma_settled_camera_is_a_fixed_point(start(h), idle_input(frame()));
}

/// One notch up on the wheel plans a distance of 5.5 and takes the distance
/// a third of the way there, to 31/6.
pub proof fn example_zoom_out(h: real)
    ensures
        zoom_factor(1) == 11real / 10real,
        start(h).tick(
            frame_input(idle_input(frame()).keys, zoom_factor(1), Vector::zero()),
        ).plan_distance == 11real / 2real,
        start(h).tick(
            frame_input(idle_input(frame()).keys, zoom_factor(1), Vector::zero()),
        ).distance == 31real / 6real,
{
    lemma_zoom_factor_of_one_notch();
}

/// Ten notches up from a planned distance of 39 stop at 40.
pub proof fn example_zoom_stops_at_the_top(state: CameraState, input: TickInput)
    requires
        state.plan_distance == 39real,
        input.scroll_mult == zoom_factor(10),
    ensures
        state.tick(input).plan_distance == 40real,
{
    lemma_zoom_factor_grows(10);
    let m = zoom_factor(10);
    assert(39real * m > 40real);
}

/// A frame with Right held plans a target a tenth of a unit along +X, and
/// takes the target a third of the way there.
pub proof fn example_pan_right(h: real)
    ensures
        frame_input(right_only(), 1real, Vector { x: 1real, y: 0real, z: 0real }).valid(),
        start(h).tick(
            frame_input(right_only(), 1real, Vector { x: 1real, y: 0real, z: 0real }),
        ).plan_target == (Vector { x: 1real / 10real, y: 0real, z: 0real }),
        start(h).tick(
            frame_input(right_only(), 1real, Vector { x: 1real, y: 0real, z: 0real }),
        ).target == (Vector { x: 1real / 30real, y: 0real, z: 0real }),
        start(h).tick(
            frame_input(right_only(), 1real, Vector { x: 1real, y: 0real, z: 0real }),
        ).distance == 5real,
{
    crate::pan::lemma_every_pan_is_normalized(right_only());
    let input = frame_input(right_only(), 1real, Vector { x: 1real, y: 0real, z: 0real });
    let after = start(h).tick(input);
    let s = input.lerp_s();
    let k = 1real / 50real;
    let d = after.distance;
    let p = after.plan_target;
    assert(s == 1real / 3real);
    assert(0real * s == 0real) by (nonlinear_arith);
    assert(d == 5real);
    assert(1real * k == k && 0real * k == 0real) by (nonlinear_arith);
    assert(k * d == 1real / 10real && 0real * d == 0real) by (nonlinear_arith)
        requires
            k == 1real / 50real,
            d == 5real,
    ;
    assert(p == (Vector { x: 1real / 10real, y: 0real, z: 0real }));
    assert((p.x - 0real) * s == 1real / 30real) by (nonlinear_arith)
        requires
            p.x == 1real / 10real,
            s == 1real / 3real,
    ;
}

/// With Up and Right held the pan runs along `(h, 0, -h)`, and its impulse
/// is as long as that of Right alone: a fiftieth.
pub proof fn example_diagonal_pan(h: real)
    requires
        is_half_root(h),
    ensures
        frame_input(up_and_right(), 1real, Vector { x: h, y: 0real, z: -h }).valid(),
        frame_input(
            up_and_right(),
            1real,
            Vector { x: h, y: 0real, z: -h },
        ).pan_impulse().norm_squared() == (1real / 50real) * (1real / 50real),
        frame_input(
            right_only(),
            1real,
            Vector { x: 1real, y: 0real, z: 0real },
        ).pan_impulse().norm_squared() == (1real / 50real) * (1real / 50real),
{
    crate::pan::lemma_every_pan_is_normalized(up_and_right());
    lemma_half_root_squares(h);
    let diagonal = Vector { x: h, y: 0real, z: -h };
    let right = Vector { x: 1real, y: 0real, z: 0real };
    let offset = up_and_right().spec_offset().as_vector();
    assert(offset == (Vector { x: 1real, y: 0real, z: -1real }));
    assert(diagonal.norm_squared() == 1real);
    assert(h * 0real == 0real * 1real && 0real * (-1real) == (-h) * 0real && (-h) * 1real == h * (
    -1real) && h * 1real + 0real * 0real + (-h) * (-1real) > 0real) by (nonlinear_arith)
        requires
            h > 0real,
    ;
    assert(diagonal.is_unit_along(offset));
    assert(right.norm_squared() == 1real) by (nonlinear_arith)
        requires
            right.norm_squared() == 1real * 1real + 0real * 0real + 0real * 0real,
    ;
    crate::vector::lemma_scaled_norm(diagonal, 1real / 50real);
    crate::vector::lemma_scaled_norm(right, 1real / 50real);
}

proof fn lemma_half_root_squares(h: real)
    by (nonlinear_arith)
    requires
        h > 0real,
        2real * h * h == 1real,
    ensures
        h * h + h * h == 1real,
        (-h) * (-h) == h * h,
        0real * 0real == 0real,
{
}

proof fn lemma_zoom_factor_of_one_notch()
    ensures
        zoom_factor(0) == 1real,
        zoom_factor(1) == 11real / 10real,
{
    reveal_with_fuel(zoom_factor, 3);
}

/// Each notch up multiplies the factor by 11/10, so `n` notches give at
/// least that.
proof fn lemma_zoom_factor_grows(n: int)
    requires
        n >= 1,
    ensures
        zoom_factor(n) >= 11real / 10real,
    decreases n,
{
    if n == 1 {
        lemma_zoom_factor_of_one_notch();
    } else {
        lemma_zoom_factor_grows(n - 1);
        let f = zoom_factor(n - 1);
        assert(f * (11real / 10real) >= 11real / 10real) by (nonlinear_arith)
            requires
                f >= 11real / 10real,
        ;
    }
}

} // verus!
