use anodium::framework::backend::BackendRequest;
use anodium::input_handler::{
    keyboard_event_outcome, process_keyboard_shortcut, shortcut_handler, InputState, KeyAction, KeyStep, ModifiersState,
    ShortcutEffect, KEY_1, KEY_9, KEY_Q_LOWER, KEY_XF86_SWITCH_VT_1, KEY_XF86_SWITCH_VT_12,
};

fn mods(logo: bool, shift: bool) -> ModifiersState {
    ModifiersState { ctrl: false, alt: false, shift, caps_lock: false, logo, num_lock: false }
}

const KEY_A: u32 = 0x61;

#[test]
fn shortcuts_of_the_compositor() {
    assert_eq!(process_keyboard_shortcut(mods(true, false), KEY_Q_LOWER), Some(KeyAction::Quit));
    assert_eq!(process_keyboard_shortcut(mods(false, false), KEY_Q_LOWER), None);
    assert_eq!(process_keyboard_shortcut(mods(false, false), KEY_XF86_SWITCH_VT_1), Some(KeyAction::VtSwitch(1)));
    assert_eq!(process_keyboard_shortcut(mods(false, false), KEY_XF86_SWITCH_VT_12), Some(KeyAction::VtSwitch(12)));
    assert_eq!(process_keyboard_shortcut(mods(true, false), KEY_1), Some(KeyAction::Workspace(1)));
    assert_eq!(process_keyboard_shortcut(mods(true, false), KEY_9), Some(KeyAction::Workspace(9)));
    // With shift held the workspace switch still wins.
    assert_eq!(process_keyboard_shortcut(mods(true, true), KEY_9), Some(KeyAction::Workspace(9)));
    assert_eq!(process_keyboard_shortcut(mods(false, true), KEY_1), None);
    assert_eq!(process_keyboard_shortcut(mods(true, false), KEY_A), None);
}

#[test]
fn a_shortcut_press_is_taken_and_so_is_its_release() {
    let mut s = InputState::new();
    assert_eq!(s.keyboard_key_to_action(KEY_Q_LOWER, true, mods(true, false)), KeyStep::Done(KeyAction::Quit));
    assert_eq!(s.pressed_keys, vec![KEY_Q_LOWER]);
    assert_eq!(s.suppressed_keys, vec![KEY_Q_LOWER]);
    assert_eq!(s.keyboard_key_to_action(KEY_Q_LOWER, false, mods(false, false)), KeyStep::Done(KeyAction::Filtred));
    assert!(s.pressed_keys.is_empty());
    assert!(s.suppressed_keys.is_empty());
    assert_eq!(s.modifiers_state, mods(false, false));
}

#[test]
fn other_keys_go_to_the_configuration_then_to_the_client() {
    let mut s = InputState::new();
    assert_eq!(s.keyboard_key_to_action(KEY_A, true, mods(false, false)), KeyStep::AskConfig);
    assert_eq!(s.config_key_action(KEY_A, false), KeyAction::NoAction);
    assert!(s.suppressed_keys.is_empty());
    assert_eq!(s.keyboard_key_to_action(KEY_A, false, mods(false, false)), KeyStep::Done(KeyAction::NoAction));
}

#[test]
fn a_key_the_configuration_takes_has_its_release_taken() {
    let mut s = InputState::new();
    assert_eq!(s.keyboard_key_to_action(KEY_A, true, mods(false, false)), KeyStep::AskConfig);
    assert_eq!(s.config_key_action(KEY_A, true), KeyAction::Filtred);
    assert_eq!(s.keyboard_key_to_action(KEY_A, false, mods(false, false)), KeyStep::Done(KeyAction::Filtred));
    assert!(s.suppressed_keys.is_empty());
}

#[test]
fn a_key_held_twice_is_recorded_once() {
    let mut s = InputState::new();
    s.keyboard_key_to_action(KEY_A, true, mods(false, false));
    s.keyboard_key_to_action(KEY_A, true, mods(false, false));
    assert_eq!(s.pressed_keys, vec![KEY_A]);
}

#[test]
fn what_a_shortcut_does() {
    assert_eq!(shortcut_handler(KeyAction::Quit), ShortcutEffect::Quit);
    assert_eq!(shortcut_handler(KeyAction::VtSwitch(3)), ShortcutEffect::Backend(BackendRequest::ChangeVT(3)));
    assert_eq!(shortcut_handler(KeyAction::Filtred), ShortcutEffect::Nothing);
    assert_eq!(shortcut_handler(KeyAction::NoAction), ShortcutEffect::Nothing);
    assert_eq!(shortcut_handler(KeyAction::Workspace(2)), ShortcutEffect::Unsupported(KeyAction::Workspace(2)));
}

#[test]
fn how_a_keyboard_event_ends() {
    assert_eq!(keyboard_event_outcome(KeyAction::Filtred, false), (false, true));
    assert_eq!(keyboard_event_outcome(KeyAction::NoAction, false), (false, true));
    assert_eq!(keyboard_event_outcome(KeyAction::Quit, false), (true, false));
    assert_eq!(keyboard_event_outcome(KeyAction::VtSwitch(2), true), (true, true));
}
