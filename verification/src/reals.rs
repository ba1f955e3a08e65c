//! Functions of real numbers that the controller is made of, and the few
//! facts of arithmetic that the proofs about it lean on.

use vstd::prelude::*;

verus! {

/// Linear interpolation: `a + (b - a) * t`.
pub open spec fn lerp(a: real, b: real, t: real) -> real {
    a + (b - a) * t
}

/// `x` held to the range from `lo` to `hi`.
pub open spec fn clamp(x: real, lo: real, hi: real) -> real {
    if x < lo {
        lo
    } else if x > hi {
        hi
    } else {
        x
    }
}

/// The absolute value.
pub open spec fn magnitude(x: real) -> real {
    if x < 0real {
        -x
    } else {
        x
    }
}

/// `r` multiplied by itself `n` times.
pub open spec fn power(r: real, n: nat) -> real
    decreases n,
{
    if n == 0 {
        1real
    } else {
        power(r, (n - 1) as nat) * r
    }
}

pub(crate) proof fn lemma_product_with_one(a: real)
    by (nonlinear_arith)
    ensures
        a * 1real == a,
{
}

pub(crate) proof fn lemma_product_with_zero(a: real)
    by (nonlinear_arith)
    ensures
        0real * a == 0real,
{
}

pub(crate) proof fn lemma_product_commutes(a: real, b: real)
    by (nonlinear_arith)
    ensures
        a * b == b * a,
{
}

pub(crate) proof fn lemma_product_associates(a: real, b: real, c: real)
    by (nonlinear_arith)
    ensures
        (a * b) * c == a * (b * c),
{
}

pub(crate) proof fn lemma_product_of_sum(c: real, x: real, y: real, z: real)
    by (nonlinear_arith)
    ensures
        c * (x + y + z) == c * x + c * y + c * z,
{
}

pub(crate) proof fn lemma_square_of_product(x: real, k: real)
    by (nonlinear_arith)
    ensures
        (x * k) * (x * k) == k * k * (x * x),
{
}

pub(crate) proof fn lemma_square_is_not_negative(a: real)
    by (nonlinear_arith)
    ensures
        a * a >= 0real,
{
}

/// The magnitude of a product with a factor that is not negative.
pub(crate) proof fn lemma_magnitude_of_product(g: real, r: real)
    by (nonlinear_arith)
    requires
        r >= 0real,
    ensures
        (if g * r < 0real {
            -(g * r)
        } else {
            g * r
        }) == (if g < 0real {
            -g
        } else {
            g
        }) * r,
{
}

/// A factor from 0 up to but not 1 does not grow what it multiplies, and
/// shrinks it unless it is zero.
pub(crate) proof fn lemma_fraction_shrinks(e: real, r: real)
    by (nonlinear_arith)
    requires
        e >= 0real,
        0real <= r < 1real,
    ensures
        0real <= e * r <= e,
        e > 0real ==> e * r < e,
{
}

/// Multiplying twice by a factor from 0 to 1 leaves no more than
/// multiplying once.
pub(crate) proof fn lemma_fraction_of_fraction(e: real, p: real)
    by (nonlinear_arith)
    requires
        e >= 0real,
        0real <= p <= 1real,
    ensures
        e * (p * p) <= e * p,
{
}

/// What is left of the way from `a` to `b` after interpolating by `t`.
pub(crate) proof fn lemma_gap_after_lerp(a: real, b: real, t: real)
    by (nonlinear_arith)
    ensures
        lerp(a, b, t) - b == (a - b) * (1real - t),
{
}

/// Interpolating by a factor from 0 to 1 stays between the two ends.
pub(crate) proof fn lemma_lerp_stays_between(a: real, b: real, t: real, lo: real, hi: real)
    by (nonlinear_arith)
    requires
        lo <= a <= hi,
        lo <= b <= hi,
        0real <= t <= 1real,
    ensures
        lo <= lerp(a, b, t) <= hi,
{
}

/// A power of a factor from 0 up to but not 1 lies from 0 to 1, and falls at
/// least as fast as the reciprocal of `1 + n * (1 - r)`.
pub proof fn lemma_power_falls(r: real, n: nat)
    requires
        0real <= r < 1real,
    ensures
        0real <= power(r, n) <= 1real,
        power(r, n) * (1real + n as real * (1real - r)) <= 1real,
    decreases n,
{
    if n == 0 {
        lemma_product_with_one(1real);
    } else {
        let m = (n - 1) as nat;
        lemma_power_falls(r, m);
        lemma_power_step(power(r, m), r, m as real);
        assert(n as real == m as real + 1real);
    }
}

/// The step of the induction: from the bound at `m` to the bound at `m + 1`.
proof fn lemma_power_step(p: real, r: real, m: real)
    by (nonlinear_arith)
    requires
        0real <= r < 1real,
        0real <= p <= 1real,
        m >= 0real,
        p * (1real + m * (1real - r)) <= 1real,
    ensures
        0real <= p * r <= 1real,
        (p * r) * (1real + (m + 1real) * (1real - r)) <= 1real,
{
}

/// A whole number `n` that is enough for `n * (s * eps)` to pass `e`.
pub(crate) proof fn lemma_enough_steps(e: real, s: real, eps: real) -> (n: nat)
    requires
        e >= 0real,
        s > 0real,
        eps > 0real,
    ensures
        n as real * (s * eps) > e,
{
    let step = s * eps;
    assert(step > 0real) by (nonlinear_arith)
        requires
            s > 0real,
            eps > 0real,
            step == s * eps,
    ;
    let q = e / step;
    assert(q >= 0real && q * step == e) by (nonlinear_arith)
        requires
            e >= 0real,
            step > 0real,
            q == e / step,
    ;
    let whole = q.floor();
    assert(whole as real <= q < whole as real + 1real);
    let n = (whole + 1) as nat;
    assert(n as real == whole as real + 1real);
    assert(n as real * step > q * step) by (nonlinear_arith)
        requires
            n as real > q,
            step > 0real,
    ;
    n
}

/// What `m` steps pass, `n` steps pass too where `n` is no less than `m`.
pub(crate) proof fn lemma_more_steps_are_enough(m: real, n: real, s: real, eps: real, e: real)
    by (nonlinear_arith)
    requires
        m <= n,
        s > 0real,
        eps > 0real,
        m * (s * eps) > e,
    ensures
        n * (s * eps) > e,
{
}

/// Once `n * (s * eps)` has passed `e`, a factor `p` that is at most the
/// reciprocal of `1 + n * s` brings `e` under `eps`.
pub(crate) proof fn lemma_small_after(e: real, p: real, s: real, n: real, eps: real)
    by (nonlinear_arith)
    requires
        e >= 0real,
        0real <= p <= 1real,
        0real < s <= 1real,
        n >= 0real,
        eps > 0real,
        p * (1real + n * s) <= 1real,
        n * (s * eps) > e,
    ensures
        e * p < eps,
{
}

} // verus!
