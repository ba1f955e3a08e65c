//! Pan intake: from the arrow keys that are held to the direction of the pan,
//! and whether that direction is brought to unit length before it is scaled.
//!
//! Everything here is exact integer arithmetic. The caller turns the result
//! into a vector of its own number type, normalises it where
//! [`PanOffset::needs_normalizing`] says so, and scales it.

use vstd::prelude::*;

verus! {

/// Numerator of the length below which a pan is left as it is.
pub const EPSILON_NUMER: u32 = 1;

/// Denominator of that length: the threshold is one tenth of a step.
pub const EPSILON_DENOM: u32 = 10;

/// The four arrow keys as sampled at one tick: `true` while a key is held down.
#[derive(Clone, Copy, Debug, PartialEq, Eq, Structural)]
pub struct ArrowKeys {
    pub up: bool,
    pub down: bool,
    pub left: bool,
    pub right: bool,
}

/// A pan direction in whole steps along the world X and Z axes, as the keys
/// give it and before it is brought to unit length. A pan never leaves the XZ
/// plane, so no Y component is kept.
#[derive(Clone, Copy, Debug, PartialEq, Eq, Structural)]
pub struct PanOffset {
    pub x: i8,
    pub z: i8,
}

/// What one key adds along its axis: one step while held, nothing otherwise.
pub open spec fn step(held: bool) -> int {
    if held {
        1
    } else {
        0
    }
}

impl ArrowKeys {
    /// No arrow key is held.
    pub open spec fn idle(self) -> bool {
        !self.up && !self.down && !self.left && !self.right
    }

    /// Steps along X: Right pushes towards +X, Left towards -X.
    pub open spec fn pan_x(self) -> int {
        step(self.right) - step(self.left)
    }

    /// Steps along Z: Down pushes towards +Z, Up towards -Z.
    pub open spec fn pan_z(self) -> int {
        step(self.down) - step(self.up)
    }

    /// The pan direction that the held keys ask for, as a value.
    pub open spec fn spec_offset(self) -> PanOffset {
        PanOffset { x: self.pan_x() as i8, z: self.pan_z() as i8 }
    }

    /// The pan direction that the held keys ask for. Opposite keys cancel.
    pub fn offset(&self) -> (o: PanOffset)
        ensures
            o == self.spec_offset(),
            o.x == self.pan_x(),
            o.z == self.pan_z(),
    {
        let mut x: i8 = 0;
        let mut z: i8 = 0;
        if self.down {
            z = z + 1;
        }
        if self.up {
            z = z - 1;
        }
        if self.right {
            x = x + 1;
        }
        if self.left {
            x = x - 1;
        }
        PanOffset { x, z }
    }
}

impl PanOffset {
    /// The square of the vector's Euclidean length.
    pub open spec fn length_squared(self) -> int {
        self.x * self.x + self.z * self.z
    }

    /// The vector is the zero vector.
    pub open spec fn is_zero(self) -> bool {
        self.x == 0 && self.z == 0
    }

    /// The vector is longer than the threshold. `length > numer / denom`,
    /// with both sides non-negative, is `denom² · length² > numer²`.
    pub open spec fn exceeds_epsilon(self) -> bool {
        EPSILON_DENOM * EPSILON_DENOM * self.length_squared() > EPSILON_NUMER * EPSILON_NUMER
    }

    /// Computes the square of the vector's length.
    pub fn norm_squared(&self) -> (n: u32)
        ensures
            n == self.length_squared(),
            n <= 32768,
    {
        let x: i32 = self.x as i32;
        let z: i32 = self.z as i32;
        assert(0 <= x * x <= 16384) by (nonlinear_arith)
            requires
                -128 <= x <= 127,
        ;
        assert(0 <= z * z <= 16384) by (nonlinear_arith)
            requires
                -128 <= z <= 127,
        ;
        (x * x + z * z) as u32
    }

    /// Whether the vector is to be normalised: it is when it is longer than
    /// the threshold, which for whole steps is whenever it is not zero. A
    /// vector at or under the threshold is left as it is.
    pub fn needs_normalizing(&self) -> (b: bool)
        ensures
            b == self.exceeds_epsilon(),
            b == !self.is_zero(),
    {
        let n: u32 = self.norm_squared();
        let denom_squared: u32 = EPSILON_DENOM * EPSILON_DENOM;
        let numer_squared: u32 = EPSILON_NUMER * EPSILON_NUMER;
        proof {
            lemma_square_of_nonzero(self.x as int);
            lemma_square_of_nonzero(self.z as int);
        }
        denom_squared * n > numer_squared
    }
}

/// A square is never negative, and is at least one unless its root is zero.
proof fn lemma_square_of_nonzero(a: int)
    ensures
        a * a >= 0,
        a != 0 ==> a * a >= 1,
        a == 0 ==> a * a == 0,
{
    assert(a * a >= 0 && (a != 0 ==> a * a >= 1)) by (nonlinear_arith);
}

/// With no arrow key held the pan is the zero vector, and it is not
/// normalised: the caller adds nothing to the planned target.
pub proof fn lemma_idle_keys_give_no_pan(keys: ArrowKeys)
    requires
        keys.idle(),
    ensures
        keys.spec_offset().is_zero(),
        !keys.spec_offset().exceeds_epsilon(),
{
    lemma_square_of_nonzero(0);
}

/// Whatever keys are held, each component of the pan is -1, 0 or 1, and a
/// component is zero exactly when its two keys are both held or both
/// released.
pub proof fn lemma_offset_components(keys: ArrowKeys)
    ensures
        keys.spec_offset().x == keys.pan_x(),
        keys.spec_offset().z == keys.pan_z(),
        -1 <= keys.pan_x() <= 1,
        -1 <= keys.pan_z() <= 1,
        keys.pan_x() == 0 <==> keys.left == keys.right,
        keys.pan_z() == 0 <==> keys.up == keys.down,
{
}

/// Every pan that the keys can give and that is not zero is longer than the
/// threshold, so it is normalised, whether it lies along one axis (squared
/// length 1) or along a diagonal (squared length 2). No pan escapes
/// normalisation by being short.
pub proof fn lemma_every_pan_is_normalized(keys: ArrowKeys)
    ensures
        keys.spec_offset().exceeds_epsilon() <==> !keys.spec_offset().is_zero(),
        keys.spec_offset().is_zero() ==> keys.spec_offset().length_squared() == 0,
        (keys.pan_x() == 0) != (keys.pan_z() == 0) ==> keys.spec_offset().length_squared() == 1,
        keys.pan_x() != 0 && keys.pan_z() != 0 ==> keys.spec_offset().length_squared() == 2,
{
    let o = keys.spec_offset();
    lemma_square_of_nonzero(o.x as int);
    lemma_square_of_nonzero(o.z as int);
    assert(o.x * o.x == 1 || o.x == 0) by (nonlinear_arith)
        requires
            -1 <= o.x <= 1,
    ;
    assert(o.z * o.z == 1 || o.z == 0) by (nonlinear_arith)
        requires
            -1 <= o.z <= 1,
    ;
}

} // verus!
