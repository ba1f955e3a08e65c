use bevy::input::keyboard::KeyCode;
use bevy::input::Input;
use sweep_camera::keyboard::quit_requested;
use sweep_camera::pan::{ArrowKeys, PanOffset};

fn idle() -> ArrowKeys {
    ArrowKeys { up: false, down: false, left: false, right: false }
}

#[test]
fn an_untouched_keyboard_holds_no_arrow() {
    let kb: Input<KeyCode> = Input::default();
    assert_eq!(ArrowKeys::sample(&kb), idle());
    assert!(!quit_requested(&kb));
}

#[test]
fn each_arrow_is_sampled_on_its_own() {
    let mut kb: Input<KeyCode> = Input::default();
    kb.press(KeyCode::Up);
    assert_eq!(ArrowKeys::sample(&kb), ArrowKeys { up: true, ..idle() });

    let mut kb: Input<KeyCode> = Input::default();
    kb.press(KeyCode::Down);
    assert_eq!(ArrowKeys::sample(&kb), ArrowKeys { down: true, ..idle() });

    let mut kb: Input<KeyCode> = Input::default();
    kb.press(KeyCode::Left);
    assert_eq!(ArrowKeys::sample(&kb), ArrowKeys { left: true, ..idle() });

    let mut kb: Input<KeyCode> = Input::default();
    kb.press(KeyCode::Right);
    assert_eq!(ArrowKeys::sample(&kb), ArrowKeys { right: true, ..idle() });
}

#[test]
fn several_arrows_are_sampled_together() {
    let mut kb: Input<KeyCode> = Input::default();
    kb.press(KeyCode::Up);
    kb.press(KeyCode::Right);
    let keys = ArrowKeys::sample(&kb);
    assert_eq!(keys, ArrowKeys { up: true, down: false, left: false, right: true });
    assert_eq!(keys.offset(), PanOffset { x: 1, z: -1 });
}

#[test]
fn arrows_stay_held_across_frames() {
    let mut kb: Input<KeyCode> = Input::default();
    kb.press(KeyCode::Left);
    kb.clear();
    assert_eq!(ArrowKeys::sample(&kb), ArrowKeys { left: true, ..idle() });
    kb.clear();
    assert_eq!(ArrowKeys::sample(&kb), ArrowKeys { left: true, ..idle() });
}

#[test]
fn a_released_arrow_is_no_longer_sampled() {
    let mut kb: Input<KeyCode> = Input::default();
    kb.press(KeyCode::Down);
    kb.press(KeyCode::Left);
    kb.release(KeyCode::Down);
    assert_eq!(ArrowKeys::sample(&kb), ArrowKeys { left: true, ..idle() });
}

#[test]
fn other_keys_do_not_pan() {
    let mut kb: Input<KeyCode> = Input::default();
    kb.press(KeyCode::Q);
    kb.press(KeyCode::W);
    kb.press(KeyCode::Space);
    kb.press(KeyCode::PageUp);
    assert_eq!(ArrowKeys::sample(&kb), idle());
}

#[test]
fn a_fresh_press_of_q_asks_to_quit() {
    let mut kb: Input<KeyCode> = Input::default();
    kb.press(KeyCode::Q);
    assert!(quit_requested(&kb));
}

#[test]
fn q_asks_to_quit_once_per_press() {
    let mut kb: Input<KeyCode> = Input::default();
    kb.press(KeyCode::Q);
    assert!(quit_requested(&kb));
    kb.clear();
    assert!(kb.pressed(KeyCode::Q));
    assert!(!quit_requested(&kb));
    kb.release(KeyCode::Q);
    kb.clear();
    kb.press(KeyCode::Q);
    assert!(quit_requested(&kb));
}

#[test]
fn other_keys_do_not_ask_to_quit() {
    let mut kb: Input<KeyCode> = Input::default();
    kb.press(KeyCode::Up);
    kb.press(KeyCode::Escape);
    kb.press(KeyCode::W);
    assert!(!quit_requested(&kb));
}

#[test]
fn quitting_and_panning_do_not_disturb_each_other() {
    let mut kb: Input<KeyCode> = Input::default();
    kb.press(KeyCode::Right);
    kb.clear();
    kb.press(KeyCode::Q);
    assert!(quit_requested(&kb));
    let keys = ArrowKeys::sample(&kb);
    assert_eq!(keys, ArrowKeys { right: true, ..idle() });
    assert_eq!(keys.offset(), PanOffset { x: 1, z: 0 });
    assert!(keys.offset().needs_normalizing());
}
