use rhyolite::input::Keyboard;

const KEY_W: u32 = 17;
const KEY_A: u32 = 30;

#[test]
fn keyboard_starts_empty() {
    let kb = Keyboard::new();
    assert!(!kb.key_pressed(KEY_W));
    assert!(!kb.key_down(KEY_W));
    assert!(!kb.key_released(KEY_W));
}

#[test]
fn keyboard_press_hold_release() {
    let mut kb = Keyboard::new();
    kb.update_with_input(KEY_W, true);
    assert!(kb.key_pressed(KEY_W));
    assert!(kb.key_down(KEY_W));
    assert!(!kb.key_released(KEY_W));

    // A repeat of the held key registers nothing new.
    kb.update_with_input(KEY_W, true);
    assert!(!kb.key_pressed(KEY_W));
    assert!(kb.key_down(KEY_W));
    assert!(!kb.key_released(KEY_W));

    kb.update_with_input(KEY_W, false);
    assert!(!kb.key_pressed(KEY_W));
    assert!(!kb.key_down(KEY_W));
    assert!(kb.key_released(KEY_W));
}

#[test]
fn keyboard_pressed_carries_over_one_event_only() {
    let mut kb = Keyboard::new();
    kb.update_with_input(KEY_W, true);
    kb.update_with_input(KEY_A, true);
    // The earlier key is still held but no longer freshly pressed.
    assert!(!kb.key_pressed(KEY_W));
    assert!(kb.key_down(KEY_W));
    assert!(kb.key_pressed(KEY_A));
    assert!(kb.key_down(KEY_A));
}

#[test]
fn keyboard_release_of_unheld_key_registers() {
    let mut kb = Keyboard::new();
    kb.update_with_input(KEY_A, false);
    assert!(kb.key_released(KEY_A));
    assert!(!kb.key_down(KEY_A));
}
