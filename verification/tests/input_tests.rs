use tilegame::input::{
    button_for_key, keyboard_mapping, keys_from_bytes, set_held_keys, update_keyboard_input,
    GameButtonId, GameButtonState, GameInput, A_KEY_CODE, D_KEY_CODE, ESC_KEY_CODE, NUM_BUTTONS,
    S_KEY_CODE, W_KEY_CODE,
};

#[test]
fn button_ids_convert_to_positions() {
    assert_eq!(usize::from(GameButtonId::Up), 0);
    assert_eq!(usize::from(GameButtonId::Right), 3);
    assert_eq!(usize::from(GameButtonId::ActionLeft), 8);
    assert_eq!(usize::from(GameButtonId::Start), 11);
    assert_eq!(u32::from(GameButtonId::Down), 1);
    assert_eq!(u32::from(GameButtonId::Back), 10);
}

#[test]
fn mapping_follows_button_order() {
    let m = keyboard_mapping();
    assert_eq!(m[usize::from(GameButtonId::Up)], W_KEY_CODE);
    assert_eq!(m[usize::from(GameButtonId::Down)], S_KEY_CODE);
    assert_eq!(m[usize::from(GameButtonId::Left)], A_KEY_CODE);
    assert_eq!(m[usize::from(GameButtonId::Right)], D_KEY_CODE);
    assert_eq!(m[usize::from(GameButtonId::Start)], ESC_KEY_CODE);
    assert_eq!(button_for_key(A_KEY_CODE), Some(2));
    assert_eq!(button_for_key(99), None);
}

#[test]
fn key_events_count_transitions() {
    let mut input = GameInput::default();
    update_keyboard_input(&mut input, W_KEY_CODE, true);
    assert!(input.buttons[0].ended_down);
    assert_eq!(input.buttons[0].half_transition_count, 1);
    update_keyboard_input(&mut input, W_KEY_CODE, true);
    assert_eq!(input.buttons[0].half_transition_count, 1);
    update_keyboard_input(&mut input, W_KEY_CODE, false);
    assert!(!input.buttons[0].ended_down);
    assert_eq!(input.buttons[0].half_transition_count, 2);
    for i in 1..NUM_BUTTONS {
        assert!(!input.buttons[i].ended_down);
        assert_eq!(input.buttons[i].half_transition_count, 0);
    }
}

#[test]
fn unmapped_key_changes_nothing() {
    let mut input = GameInput::default();
    update_keyboard_input(&mut input, 200, true);
    for i in 0..NUM_BUTTONS {
        assert!(!input.buttons[i].ended_down);
        assert_eq!(input.buttons[i].half_transition_count, 0);
    }
}

#[test]
fn clearing_keeps_down_state() {
    let mut input = GameInput::default();
    update_keyboard_input(&mut input, D_KEY_CODE, true);
    update_keyboard_input(&mut input, ESC_KEY_CODE, true);
    update_keyboard_input(&mut input, ESC_KEY_CODE, false);
    input.pointer.buttons[1].half_transition_count = 5;
    input.pointer.buttons[1].ended_down = true;
    input.clear_half_transition_count();
    for i in 0..NUM_BUTTONS {
        assert_eq!(input.buttons[i].half_transition_count, 0);
    }
    assert!(input.buttons[3].ended_down);
    assert!(!input.buttons[11].ended_down);
    assert_eq!(input.pointer.buttons[1].half_transition_count, 0);
    assert!(input.pointer.buttons[1].ended_down);
}

#[test]
fn held_key_codes_unpack_in_machine_order() {
    let mut bytes = Vec::new();
    bytes.extend_from_slice(&W_KEY_CODE.to_ne_bytes());
    bytes.extend_from_slice(&0x0102_0304u32.to_ne_bytes());
    bytes.extend_from_slice(&[7, 7]);
    let codes = keys_from_bytes(&bytes);
    assert_eq!(codes.len(), 2);
    assert_eq!(codes, vec![W_KEY_CODE, 0x0102_0304]);
    assert!(keys_from_bytes(&[1, 2, 3]).is_empty());
}

#[test]
fn held_keys_set_buttons() {
    let mut input = GameInput::default();
    update_keyboard_input(&mut input, W_KEY_CODE, true);
    set_held_keys(&mut input, &[A_KEY_CODE, 500, ESC_KEY_CODE]);
    assert!(!input.buttons[0].ended_down);
    assert_eq!(input.buttons[0].half_transition_count, 1);
    assert!(input.buttons[2].ended_down);
    assert!(input.buttons[11].ended_down);
    assert!(!input.buttons[3].ended_down);
}

#[test]
fn movement_direction_prefers_down_and_right() {
    let mut input = GameInput::default();
    assert_eq!(input.movement_direction(), (0, 0));
    input.buttons[0] = GameButtonState { half_transition_count: 0, ended_down: true };
    assert_eq!(input.movement_direction(), (0, -1));
    input.buttons[1].ended_down = true;
    assert_eq!(input.movement_direction(), (0, 1));
    input.buttons[2].ended_down = true;
    assert_eq!(input.movement_direction(), (-1, 1));
    input.buttons[3].ended_down = true;
    assert_eq!(input.movement_direction(), (1, 1));
}

#[test]
fn repeated_key_event_changes_nothing() {
    let mut once = GameInput::default();
    update_keyboard_input(&mut once, S_KEY_CODE, true);
    let mut twice = once;
    update_keyboard_input(&mut twice, S_KEY_CODE, true);
    for i in 0..NUM_BUTTONS {
        assert_eq!(once.buttons[i].ended_down, twice.buttons[i].ended_down);
        assert_eq!(once.buttons[i].half_transition_count, twice.buttons[i].half_transition_count);
    }
}
