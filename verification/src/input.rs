//! Navigation input, from the keyboard or a game controller.
//!
//! Both sources are funnelled into one [`NavAction`] so the interface has a
//! single code path. Keys and pad buttons are named by the library's own
//! enums; the windowing toolkit and the controller library each translate
//! their values into these before asking what they mean.

use vstd::prelude::*;

verus! {

/// A navigation intent, independent of what produced it.
#[derive(Debug, Clone, Copy, PartialEq, Eq, Structural)]
pub enum NavAction {
    Up,
    Down,
    /// Confirm: download the highlighted game, or play it if already saved.
    Confirm,
    /// Back out: clear the search, or drop the highlight.
    Back,
    PagePrev,
    PageNext,
    /// Move to the previous/next platform in the sidebar.
    PlatformPrev,
    PlatformNext,
}

/// The keys the application gives a meaning to, in menus or in a game.
/// Every other key arrives as `Other`.
#[derive(Debug, Clone, Copy, PartialEq, Eq, Structural)]
pub enum Key {
    ArrowUp,
    ArrowDown,
    ArrowLeft,
    ArrowRight,
    Enter,
    Space,
    Escape,
    Backspace,
    PageUp,
    PageDown,
    A,
    J,
    K,
    Q,
    S,
    W,
    X,
    Z,
    F1,
    Other,
}

/// Controller buttons by position, as the controller layer normalises them:
/// `South` is the bottom face button on every layout.
#[derive(Debug, Clone, Copy, PartialEq, Eq, Structural)]
pub enum PadButton {
    South,
    East,
    North,
    West,
    C,
    Z,
    LeftTrigger,
    LeftTrigger2,
    RightTrigger,
    RightTrigger2,
    Select,
    Start,
    Mode,
    LeftThumb,
    RightThumb,
    DPadUp,
    DPadDown,
    DPadLeft,
    DPadRight,
    Unknown,
}

pub open spec fn key_action(key: Key) -> Option<NavAction> {
    match key {
        Key::ArrowUp | Key::K => Some(NavAction::Up),
        Key::ArrowDown | Key::J => Some(NavAction::Down),
        Key::ArrowLeft => Some(NavAction::PagePrev),
        Key::ArrowRight => Some(NavAction::PageNext),
        Key::Enter | Key::Space => Some(NavAction::Confirm),
        Key::Escape => Some(NavAction::Back),
        Key::PageUp => Some(NavAction::PlatformPrev),
        Key::PageDown => Some(NavAction::PlatformNext),
        _ => None,
    }
}

/// Keyboard mapping. Arrow keys and Enter are the obvious ones, with the vim
/// keys beside them. Page navigation is on left/right because that is what
/// the D-pad maps to, and the two should agree.
pub fn key_to_action(key: Key) -> (a: Option<NavAction>)
    ensures
        a == key_action(key),
{
    match key {
        Key::ArrowUp | Key::K => Some(NavAction::Up),
        Key::ArrowDown | Key::J => Some(NavAction::Down),
        Key::ArrowLeft => Some(NavAction::PagePrev),
        Key::ArrowRight => Some(NavAction::PageNext),
        Key::Enter | Key::Space => Some(NavAction::Confirm),
        Key::Escape => Some(NavAction::Back),
        Key::PageUp => Some(NavAction::PlatformPrev),
        Key::PageDown => Some(NavAction::PlatformNext),
        _ => None,
    }
}

pub open spec fn button_action(button: PadButton) -> Option<NavAction> {
    match button {
        PadButton::DPadUp => Some(NavAction::Up),
        PadButton::DPadDown => Some(NavAction::Down),
        PadButton::DPadLeft => Some(NavAction::PagePrev),
        PadButton::DPadRight => Some(NavAction::PageNext),
        PadButton::South => Some(NavAction::Confirm),
        PadButton::East => Some(NavAction::Back),
        PadButton::LeftTrigger => Some(NavAction::PlatformPrev),
        PadButton::RightTrigger => Some(NavAction::PlatformNext),
        _ => None,
    }
}

/// Controller mapping, following the convention every console uses: the
/// bottom face button confirms, the right one goes back, and the shoulders
/// switch platform the way they switch tabs.
pub fn button_to_action(button: PadButton) -> (a: Option<NavAction>)
    ensures
        a == button_action(button),
{
    match button {
        PadButton::DPadUp => Some(NavAction::Up),
        PadButton::DPadDown => Some(NavAction::Down),
        PadButton::DPadLeft => Some(NavAction::PagePrev),
        PadButton::DPadRight => Some(NavAction::PageNext),
        PadButton::South => Some(NavAction::Confirm),
        PadButton::East => Some(NavAction::Back),
        PadButton::LeftTrigger => Some(NavAction::PlatformPrev),
        PadButton::RightTrigger => Some(NavAction::PlatformNext),
        _ => None,
    }
}

/// Each menu action comes from its own keys and no others: up from the up
/// arrow or K, down from the down arrow or J, the previous and next page
/// from left and right, confirm from Enter or Space, back from Escape, and
/// the previous and next platform from Page Up and Page Down.
pub proof fn lemma_each_action_has_its_keys(key: Key)
    ensures
        (key_action(key) == Some(NavAction::Up)) == (key == Key::ArrowUp || key == Key::K),
        (key_action(key) == Some(NavAction::Down)) == (key == Key::ArrowDown || key == Key::J),
        (key_action(key) == Some(NavAction::PagePrev)) == (key == Key::ArrowLeft),
        (key_action(key) == Some(NavAction::PageNext)) == (key == Key::ArrowRight),
        (key_action(key) == Some(NavAction::Confirm)) == (key == Key::Enter || key == Key::Space),
        (key_action(key) == Some(NavAction::Back)) == (key == Key::Escape),
        (key_action(key) == Some(NavAction::PlatformPrev)) == (key == Key::PageUp),
        (key_action(key) == Some(NavAction::PlatformNext)) == (key == Key::PageDown),
{
}

/// Each menu action comes from its own controller button and no other: the
/// D-pad moves and pages, the bottom face button confirms, the right one goes
/// back, and the shoulders switch platform.
pub proof fn lemma_each_action_has_its_button(button: PadButton)
    ensures
        (button_action(button) == Some(NavAction::Up)) == (button == PadButton::DPadUp),
        (button_action(button) == Some(NavAction::Down)) == (button == PadButton::DPadDown),
        (button_action(button) == Some(NavAction::PagePrev)) == (button == PadButton::DPadLeft),
        (button_action(button) == Some(NavAction::PageNext)) == (button == PadButton::DPadRight),
        (button_action(button) == Some(NavAction::Confirm)) == (button == PadButton::South),
        (button_action(button) == Some(NavAction::Back)) == (button == PadButton::East),
        (button_action(button) == Some(NavAction::PlatformPrev)) == (button == PadButton::LeftTrigger),
        (button_action(button) == Some(NavAction::PlatformNext)) == (button == PadButton::RightTrigger),
{
}

/// The D-pad means what the arrow keys mean.
pub proof fn lemma_dpad_agrees_with_the_arrow_keys()
    ensures
        button_action(PadButton::DPadUp) == key_action(Key::ArrowUp),
        button_action(PadButton::DPadDown) == key_action(Key::ArrowDown),
        button_action(PadButton::DPadLeft) == key_action(Key::ArrowLeft),
        button_action(PadButton::DPadRight) == key_action(Key::ArrowRight),
{
}

/// Below this, in thousandths of full deflection, a stick is centred. Sticks
/// rest slightly off zero, so without a threshold the list scrolls on its own.
pub const STICK_THRESHOLD: i32 = 600;

pub open spec fn at_rest(value: i32) -> bool {
    -STICK_THRESHOLD < value < STICK_THRESHOLD
}

pub open spec fn stick_spec(value: i32, was_latched: bool) -> (Option<NavAction>, bool) {
    if at_rest(value) {
        (None, false)
    } else if was_latched {
        (None, true)
    } else if value > 0 {
        (Some(NavAction::Up), true)
    } else {
        (Some(NavAction::Down), true)
    }
}

/// Translate a left-stick Y position (thousandths of full deflection, up
/// positive) into an action, only when it crosses the threshold: holding the
/// stick must not emit an action every frame. Returns the new latch alongside.
pub fn stick_y_to_action(value: i32, was_latched: bool) -> (r: (Option<NavAction>, bool))
    ensures
        r == stick_spec(value, was_latched),
{
    if value > -STICK_THRESHOLD && value < STICK_THRESHOLD {
        return (None, false);
    }
    if was_latched {
        return (None, true);
    }
    let action = if value > 0 {
        NavAction::Up
    } else {
        NavAction::Down
    };
    (Some(action), true)
}

/// A held stick fires once: pushed from rest it moves once and latches, and
/// while it stays pushed, in either direction, nothing more happens until it
/// has been released.
pub proof fn lemma_a_held_stick_fires_once(first: i32, held: i32)
    requires
        !at_rest(first),
        !at_rest(held),
    ensures
        stick_spec(first, false).0 is Some,
        stick_spec(first, false).1,
        stick_spec(held, stick_spec(first, false).1) == (None::<NavAction>, true),
        stick_spec(0, true) == (None::<NavAction>, false),
{
}

} // verus!
