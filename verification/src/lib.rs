//! A smoothed orbit camera: the arrow keys pan the point it looks at, the
//! mouse wheel zooms, and the camera eases towards what was asked of it.
//!
//! Two parts are executable and verified: [`keyboard`] reads the bound keys
//! off the engine's keyboard state, and [`pan`] turns the arrow keys into a
//! pan direction in whole steps and decides whether it is normalised.
//!
//! The rest states the controller over the real numbers and proves what
//! holds of it: [`controller`] has the state and the tick, [`zoom`],
//! [`panning`], [`easing`] and [`facing`] the laws, [`worked`] some ticks
//! with their exact results. [`reals`] and [`vector`] hold the arithmetic.
//! A viewer that computes in floating point follows the same formulas; how
//! far rounding takes it from them is not a subject of this crate.

pub mod controller;
pub mod easing;
pub mod facing;
pub mod keyboard;
pub mod pan;
pub mod panning;
pub mod reals;
pub mod vector;
pub mod worked;
pub mod zoom;
