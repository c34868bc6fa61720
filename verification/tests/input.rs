use rustromm::input::{button_to_action, key_to_action, stick_y_to_action, Key, NavAction, PadButton};

#[test]
fn arrows_and_vim_keys_both_move() {
    assert_eq!(key_to_action(Key::ArrowDown), Some(NavAction::Down));
    assert_eq!(key_to_action(Key::J), Some(NavAction::Down));
    assert_eq!(key_to_action(Key::ArrowUp), Some(NavAction::Up));
    assert_eq!(key_to_action(Key::K), Some(NavAction::Up));
}

#[test]
fn enter_and_space_confirm() {
    assert_eq!(key_to_action(Key::Enter), Some(NavAction::Confirm));
    assert_eq!(key_to_action(Key::Space), Some(NavAction::Confirm));
}

#[test]
fn unmapped_keys_do_nothing() {
    assert_eq!(key_to_action(Key::F1), None);
    assert_eq!(key_to_action(Key::Q), None);
    assert_eq!(key_to_action(Key::Other), None);
}

#[test]
fn paging_and_platform_keys() {
    assert_eq!(key_to_action(Key::ArrowLeft), Some(NavAction::PagePrev));
    assert_eq!(key_to_action(Key::ArrowRight), Some(NavAction::PageNext));
    assert_eq!(key_to_action(Key::PageUp), Some(NavAction::PlatformPrev));
    assert_eq!(key_to_action(Key::PageDown), Some(NavAction::PlatformNext));
    assert_eq!(key_to_action(Key::Escape), Some(NavAction::Back));
}

#[test]
fn face_buttons_follow_console_convention() {
    assert_eq!(button_to_action(PadButton::South), Some(NavAction::Confirm));
    assert_eq!(button_to_action(PadButton::East), Some(NavAction::Back));
    assert_eq!(button_to_action(PadButton::LeftTrigger), Some(NavAction::PlatformPrev));
    assert_eq!(button_to_action(PadButton::RightTrigger), Some(NavAction::PlatformNext));
}

#[test]
fn dpad_maps_to_the_same_actions_as_the_arrow_keys() {
    for (button, key) in [
        (PadButton::DPadUp, Key::ArrowUp),
        (PadButton::DPadDown, Key::ArrowDown),
        (PadButton::DPadLeft, Key::ArrowLeft),
        (PadButton::DPadRight, Key::ArrowRight),
    ] {
        assert_eq!(
            button_to_action(button),
            key_to_action(key),
            "{button:?} and {key:?} should agree"
        );
    }
}

#[test]
fn unmapped_buttons_do_nothing() {
    assert_eq!(button_to_action(PadButton::Mode), None);
    assert_eq!(button_to_action(PadButton::North), None);
}

#[test]
fn a_resting_stick_produces_nothing() {
    assert_eq!(stick_y_to_action(0, false), (None, false));
    assert_eq!(stick_y_to_action(300, false), (None, false));
    assert_eq!(stick_y_to_action(-590, false), (None, false));
}

#[test]
fn a_held_stick_fires_once_not_every_frame() {
    let (action, latched) = stick_y_to_action(-900, false);
    assert_eq!(action, Some(NavAction::Down));
    assert!(latched);
    let (action, latched) = stick_y_to_action(-950, latched);
    assert_eq!(action, None);
    assert!(latched);
    let (_, latched) = stick_y_to_action(0, latched);
    assert!(!latched);
    let (action, _) = stick_y_to_action(-900, latched);
    assert_eq!(action, Some(NavAction::Down));
}

#[test]
fn pushing_the_stick_up_moves_up() {
    assert_eq!(stick_y_to_action(900, false).0, Some(NavAction::Up));
    assert_eq!(stick_y_to_action(600, false).0, Some(NavAction::Up));
}
