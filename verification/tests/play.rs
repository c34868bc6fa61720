use std::collections::HashSet;

use rustromm::input::{Key, PadButton};
use rustromm::libretro::sys::{
    JOYPAD_BUTTON_COUNT, RETRO_DEVICE_ID_JOYPAD_A, RETRO_DEVICE_ID_JOYPAD_B,
    RETRO_DEVICE_ID_JOYPAD_DOWN, RETRO_DEVICE_ID_JOYPAD_L, RETRO_DEVICE_ID_JOYPAD_LEFT,
    RETRO_DEVICE_ID_JOYPAD_R, RETRO_DEVICE_ID_JOYPAD_RIGHT, RETRO_DEVICE_ID_JOYPAD_SELECT,
    RETRO_DEVICE_ID_JOYPAD_START, RETRO_DEVICE_ID_JOYPAD_UP, RETRO_DEVICE_ID_JOYPAD_X,
    RETRO_DEVICE_ID_JOYPAD_Y,
};
use rustromm::play::{apply_stick, retropad_from_keys, retropad_id_for_button};

fn keys(list: &[Key]) -> u16 {
    retropad_from_keys(list)
}

#[test]
fn nothing_pressed_is_a_clear_mask() {
    assert_eq!(keys(&[]), 0);
}

#[test]
fn arrow_keys_reach_the_dpad() {
    assert_eq!(keys(&[Key::ArrowUp]), 1 << RETRO_DEVICE_ID_JOYPAD_UP);
    assert_eq!(
        keys(&[Key::ArrowLeft, Key::ArrowDown]),
        (1 << RETRO_DEVICE_ID_JOYPAD_LEFT) | (1 << RETRO_DEVICE_ID_JOYPAD_DOWN)
    );
}

#[test]
fn a_keyboard_alone_can_reach_every_button_a_game_needs() {
    let all = keys(&[
        Key::ArrowUp,
        Key::ArrowDown,
        Key::ArrowLeft,
        Key::ArrowRight,
        Key::Z,
        Key::X,
        Key::A,
        Key::S,
        Key::Enter,
        Key::Backspace,
        Key::Q,
        Key::W,
    ]);
    for id in [
        RETRO_DEVICE_ID_JOYPAD_UP,
        RETRO_DEVICE_ID_JOYPAD_DOWN,
        RETRO_DEVICE_ID_JOYPAD_LEFT,
        RETRO_DEVICE_ID_JOYPAD_RIGHT,
        RETRO_DEVICE_ID_JOYPAD_A,
        RETRO_DEVICE_ID_JOYPAD_B,
        RETRO_DEVICE_ID_JOYPAD_X,
        RETRO_DEVICE_ID_JOYPAD_Y,
        RETRO_DEVICE_ID_JOYPAD_START,
        RETRO_DEVICE_ID_JOYPAD_SELECT,
        RETRO_DEVICE_ID_JOYPAD_L,
        RETRO_DEVICE_ID_JOYPAD_R,
    ] {
        assert!(all & (1 << id) != 0, "no key reaches RetroPad id {id}");
    }
}

#[test]
fn keys_with_no_game_meaning_press_nothing_and_repeats_are_harmless() {
    assert_eq!(keys(&[Key::F1, Key::Other, Key::Escape, Key::J]), 0);
    assert_eq!(keys(&[Key::Z, Key::Z]), 1 << RETRO_DEVICE_ID_JOYPAD_B);
}

#[test]
fn a_resting_stick_presses_nothing() {
    for (x, y) in [(0, 0), (200, -100), (-350, 400), (490, 490)] {
        assert_eq!(apply_stick(0, x, y), 0, "stick at ({x}, {y}) pressed something");
    }
}

#[test]
fn the_stick_is_not_upside_down() {
    assert_eq!(apply_stick(0, 0, 1000), 1 << RETRO_DEVICE_ID_JOYPAD_UP);
    assert_eq!(apply_stick(0, 0, -1000), 1 << RETRO_DEVICE_ID_JOYPAD_DOWN);
    assert_eq!(apply_stick(0, -1000, 0), 1 << RETRO_DEVICE_ID_JOYPAD_LEFT);
    assert_eq!(apply_stick(0, 1000, 0), 1 << RETRO_DEVICE_ID_JOYPAD_RIGHT);
}

#[test]
fn the_stick_adds_to_the_dpad_rather_than_replacing_it() {
    let start = 1 << RETRO_DEVICE_ID_JOYPAD_START;
    let out = apply_stick(start, 1000, 0);
    assert!(out & start != 0, "applying the stick cleared an unrelated button");
    assert!(out & (1 << RETRO_DEVICE_ID_JOYPAD_RIGHT) != 0);
}

#[test]
fn diagonals_work() {
    let out = apply_stick(0, 800, 800);
    assert!(out & (1 << RETRO_DEVICE_ID_JOYPAD_RIGHT) != 0);
    assert!(out & (1 << RETRO_DEVICE_ID_JOYPAD_UP) != 0);
}

#[test]
fn the_bottom_face_button_is_retropad_b_not_a() {
    assert_eq!(retropad_id_for_button(PadButton::South), Some(RETRO_DEVICE_ID_JOYPAD_B));
    assert_eq!(retropad_id_for_button(PadButton::East), Some(RETRO_DEVICE_ID_JOYPAD_A));
    assert_eq!(retropad_id_for_button(PadButton::West), Some(RETRO_DEVICE_ID_JOYPAD_Y));
    assert_eq!(retropad_id_for_button(PadButton::North), Some(RETRO_DEVICE_ID_JOYPAD_X));
}

#[test]
fn every_retropad_id_is_reachable_from_a_controller_and_none_is_doubled() {
    let buttons = [
        PadButton::DPadUp,
        PadButton::DPadDown,
        PadButton::DPadLeft,
        PadButton::DPadRight,
        PadButton::South,
        PadButton::East,
        PadButton::West,
        PadButton::North,
        PadButton::LeftTrigger,
        PadButton::RightTrigger,
        PadButton::LeftTrigger2,
        PadButton::RightTrigger2,
        PadButton::LeftThumb,
        PadButton::RightThumb,
        PadButton::Start,
        PadButton::Select,
    ];
    let mut seen = HashSet::new();
    for b in buttons {
        let id = retropad_id_for_button(b).unwrap_or_else(|| panic!("{b:?} maps to nothing"));
        assert!(seen.insert(id), "RetroPad id {id} is mapped twice");
    }
    assert_eq!(seen.len(), JOYPAD_BUTTON_COUNT);
    assert_eq!(retropad_id_for_button(PadButton::Mode), None);
}
