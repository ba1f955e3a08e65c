use sweep_camera::pan::{ArrowKeys, PanOffset, EPSILON_DENOM, EPSILON_NUMER};

fn keys(up: bool, down: bool, left: bool, right: bool) -> ArrowKeys {
    ArrowKeys { up, down, left, right }
}

#[test]
fn no_keys_give_the_zero_offset() {
    let o = keys(false, false, false, false).offset();
    assert_eq!(o, PanOffset { x: 0, z: 0 });
    assert_eq!(o.norm_squared(), 0);
    assert!(!o.needs_normalizing());
}

#[test]
fn right_pans_one_step_along_plus_x() {
    let o = keys(false, false, false, true).offset();
    assert_eq!(o, PanOffset { x: 1, z: 0 });
    assert_eq!(o.norm_squared(), 1);
    assert!(o.needs_normalizing());
}

#[test]
fn left_pans_one_step_along_minus_x() {
    let o = keys(false, false, true, false).offset();
    assert_eq!(o, PanOffset { x: -1, z: 0 });
    assert_eq!(o.norm_squared(), 1);
    assert!(o.needs_normalizing());
}

#[test]
fn down_pans_one_step_along_plus_z() {
    let o = keys(false, true, false, false).offset();
    assert_eq!(o, PanOffset { x: 0, z: 1 });
    assert_eq!(o.norm_squared(), 1);
    assert!(o.needs_normalizing());
}

#[test]
fn up_pans_one_step_along_minus_z() {
    let o = keys(true, false, false, false).offset();
    assert_eq!(o, PanOffset { x: 0, z: -1 });
    assert_eq!(o.norm_squared(), 1);
    assert!(o.needs_normalizing());
}

#[test]
fn up_and_right_pan_along_a_diagonal() {
    let o = keys(true, false, false, true).offset();
    assert_eq!(o, PanOffset { x: 1, z: -1 });
    assert_eq!(o.norm_squared(), 2);
    assert!(o.needs_normalizing());
}

#[test]
fn down_and_left_pan_along_the_opposite_diagonal() {
    let o = keys(false, true, true, false).offset();
    assert_eq!(o, PanOffset { x: -1, z: 1 });
    assert_eq!(o.norm_squared(), 2);
    assert!(o.needs_normalizing());
}

#[test]
fn opposite_keys_cancel() {
    assert_eq!(keys(true, true, false, false).offset(), PanOffset { x: 0, z: 0 });
    assert_eq!(keys(false, false, true, true).offset(), PanOffset { x: 0, z: 0 });
    assert_eq!(keys(true, true, false, true).offset(), PanOffset { x: 1, z: 0 });
    assert_eq!(keys(true, false, true, true).offset(), PanOffset { x: 0, z: -1 });
    let all = keys(true, true, true, true).offset();
    assert_eq!(all, PanOffset { x: 0, z: 0 });
    assert!(!all.needs_normalizing());
}

#[test]
fn every_key_state_gives_the_difference_of_its_keys() {
    for bits in 0u8..16 {
        let k = keys(bits & 1 != 0, bits & 2 != 0, bits & 4 != 0, bits & 8 != 0);
        let o = k.offset();
        assert_eq!(o.x, i8::from(k.right) - i8::from(k.left));
        assert_eq!(o.z, i8::from(k.down) - i8::from(k.up));
    }
}

#[test]
fn every_pan_is_normalized_unless_it_is_zero() {
    for bits in 0u8..16 {
        let k = keys(bits & 1 != 0, bits & 2 != 0, bits & 4 != 0, bits & 8 != 0);
        let o = k.offset();
        let expected: u32 = u32::from(k.left != k.right) + u32::from(k.up != k.down);
        assert_eq!(o.norm_squared(), expected);
        assert_eq!(o.needs_normalizing(), expected != 0);
    }
}

#[test]
fn the_threshold_is_one_tenth() {
    assert_eq!(EPSILON_NUMER, 1);
    assert_eq!(EPSILON_DENOM, 10);
}

#[test]
fn norm_squared_is_exact_at_the_ends_of_the_range() {
    assert_eq!(PanOffset { x: -128, z: -128 }.norm_squared(), 32768);
    assert_eq!(PanOffset { x: 127, z: 127 }.norm_squared(), 32258);
    assert_eq!(PanOffset { x: 3, z: -4 }.norm_squared(), 25);
    assert_eq!(PanOffset { x: -128, z: 0 }.norm_squared(), 16384);
}

#[test]
fn any_offset_but_zero_is_longer_than_the_threshold() {
    assert!(PanOffset { x: 0, z: -1 }.needs_normalizing());
    assert!(PanOffset { x: 3, z: -4 }.needs_normalizing());
    assert!(PanOffset { x: -128, z: 127 }.needs_normalizing());
    assert!(!PanOffset { x: 0, z: 0 }.needs_normalizing());
}
