//! The keys that the viewer is bound to, read off the engine's keyboard
//! state: the four arrows while they are held, and Q at the moment it goes
//! down.

use bevy::input::keyboard::KeyCode;
use bevy::input::Input;
use std::hash::Hash;
use vstd::prelude::*;

use crate::pan::ArrowKeys;

verus! {

/// `bevy::input::Input`, the engine's record of which inputs are down. It
/// is opaque here: what it holds is spoken of through [`held_keys`] and
/// [`fresh_keys`] alone.
#[verifier::external_type_specification]
#[verifier::external_body]
#[verifier::reject_recursive_types(T)]
pub struct ExInput<T: Copy + Eq + Hash + Send + Sync + 'static>(Input<T>);

/// `bevy::input::keyboard::KeyCode`, the engine's name for a key. It is
/// opaque here.
#[verifier::external_type_specification]
#[verifier::external_body]
pub struct ExKeyCode(KeyCode);

/// A key that the viewer reacts to. Each stands for the engine's key code
/// of the same name.
#[derive(Clone, Copy, Debug, PartialEq, Eq, Structural)]
pub enum BoundKey {
    Up,
    Down,
    Left,
    Right,
    Q,
}

/// The bound keys that a keyboard state records as held down: those whose
/// key codes are in its set of pressed inputs.
pub uninterp spec fn held_keys(kb: Input<KeyCode>) -> Set<BoundKey>;

/// The bound keys that a keyboard state records as having gone down since it
/// was last cleared: those whose key codes are in its set of just-pressed
/// inputs.
pub uninterp spec fn fresh_keys(kb: Input<KeyCode>) -> Set<BoundKey>;

/// Calls `Input::pressed` with the key code of `key`. Trusted, not proved:
/// the result says whether that key code is in the state's set of pressed
/// inputs, which is what `pressed` looks up.
#[verifier::external_body]
fn key_held(kb: &Input<KeyCode>, key: BoundKey) -> (held: bool)
    ensures
        held == held_keys(*kb).contains(key),
{
    kb.pressed(
        match key {
            BoundKey::Up => KeyCode::Up,
            BoundKey::Down => KeyCode::Down,
            BoundKey::Left => KeyCode::Left,
            BoundKey::Right => KeyCode::Right,
            BoundKey::Q => KeyCode::Q,
        },
    )
}

/// Calls `Input::just_pressed` with the key code of `key`. Trusted, not
/// proved: the result says whether that key code is in the state's set of
/// just-pressed inputs, which is what `just_pressed` looks up.
#[verifier::external_body]
fn key_fresh(kb: &Input<KeyCode>, key: BoundKey) -> (fresh: bool)
    ensures
        fresh == fresh_keys(*kb).contains(key),
{
    kb.just_pressed(
        match key {
            BoundKey::Up => KeyCode::Up,
            BoundKey::Down => KeyCode::Down,
            BoundKey::Left => KeyCode::Left,
            BoundKey::Right => KeyCode::Right,
            BoundKey::Q => KeyCode::Q,
        },
    )
}

impl ArrowKeys {
    /// The arrow keys that a keyboard state holds down.
    pub open spec fn held_in(kb: Input<KeyCode>) -> ArrowKeys {
        ArrowKeys {
            up: held_keys(kb).contains(BoundKey::Up),
            down: held_keys(kb).contains(BoundKey::Down),
            left: held_keys(kb).contains(BoundKey::Left),
            right: held_keys(kb).contains(BoundKey::Right),
        }
    }

    /// Samples the four arrow keys: each is reported as held exactly when the
    /// keyboard state has it pressed. No other key has any influence.
    pub fn sample(kb: &Input<KeyCode>) -> (keys: ArrowKeys)
        ensures
            keys == ArrowKeys::held_in(*kb),
    {
        ArrowKeys {
            up: key_held(kb, BoundKey::Up),
            down: key_held(kb, BoundKey::Down),
            left: key_held(kb, BoundKey::Left),
            right: key_held(kb, BoundKey::Right),
        }
    }
}

/// Whether the viewer is asked to exit at this tick: exactly when Q has just
/// gone down. A key that is merely still held asks for nothing.
pub fn quit_requested(kb: &Input<KeyCode>) -> (quit: bool)
    ensures
        quit == fresh_keys(*kb).contains(BoundKey::Q),
{
    key_fresh(kb, BoundKey::Q)
}

} // verus!
