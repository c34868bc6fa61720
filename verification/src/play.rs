//! Playing a game: which RetroPad buttons the player is holding.
//!
//! libretro's RetroPad is positional and laid out like a SNES pad: `B` is the
//! bottom face button and `A` the right one. An Xbox pad has `A` at the
//! bottom, so mapping "A to A" by name would put every face button in the
//! wrong place. Controller buttons arrive by position (`South`, `East`, ...),
//! so the mapping here is positional: South → `B`, East → `A`, which lands
//! right on every pad whatever is printed on its buttons.

use vstd::prelude::*;

use crate::input::{Key, PadButton};
use crate::libretro::sys;

verus! {

/// Whether button `id` is held in `mask`.
pub open spec fn held(mask: u16, id: u16) -> bool {
    (mask >> id) & 1u16 == 1u16
}

/// The RetroPad button a key stands for when no controller is at hand: the
/// arrows for the D-pad, Z/X under the left hand as every browser emulator
/// has had them for twenty years.
pub open spec fn key_retropad_id(key: Key) -> Option<u32> {
    match key {
        Key::ArrowUp => Some(sys::RETRO_DEVICE_ID_JOYPAD_UP),
        Key::ArrowDown => Some(sys::RETRO_DEVICE_ID_JOYPAD_DOWN),
        Key::ArrowLeft => Some(sys::RETRO_DEVICE_ID_JOYPAD_LEFT),
        Key::ArrowRight => Some(sys::RETRO_DEVICE_ID_JOYPAD_RIGHT),
        Key::Z => Some(sys::RETRO_DEVICE_ID_JOYPAD_B),
        Key::X => Some(sys::RETRO_DEVICE_ID_JOYPAD_A),
        Key::A => Some(sys::RETRO_DEVICE_ID_JOYPAD_Y),
        Key::S => Some(sys::RETRO_DEVICE_ID_JOYPAD_X),
        Key::Enter => Some(sys::RETRO_DEVICE_ID_JOYPAD_START),
        Key::Backspace => Some(sys::RETRO_DEVICE_ID_JOYPAD_SELECT),
        Key::Q => Some(sys::RETRO_DEVICE_ID_JOYPAD_L),
        Key::W => Some(sys::RETRO_DEVICE_ID_JOYPAD_R),
        _ => None,
    }
}

fn key_id(key: Key) -> (id: Option<u32>)
    ensures
        id == key_retropad_id(key),
        id matches Some(n) ==> n < 16,
{
    match key {
        Key::ArrowUp => Some(sys::RETRO_DEVICE_ID_JOYPAD_UP),
        Key::ArrowDown => Some(sys::RETRO_DEVICE_ID_JOYPAD_DOWN),
        Key::ArrowLeft => Some(sys::RETRO_DEVICE_ID_JOYPAD_LEFT),
        Key::ArrowRight => Some(sys::RETRO_DEVICE_ID_JOYPAD_RIGHT),
        Key::Z => Some(sys::RETRO_DEVICE_ID_JOYPAD_B),
        Key::X => Some(sys::RETRO_DEVICE_ID_JOYPAD_A),
        Key::A => Some(sys::RETRO_DEVICE_ID_JOYPAD_Y),
        Key::S => Some(sys::RETRO_DEVICE_ID_JOYPAD_X),
        Key::Enter => Some(sys::RETRO_DEVICE_ID_JOYPAD_START),
        Key::Backspace => Some(sys::RETRO_DEVICE_ID_JOYPAD_SELECT),
        Key::Q => Some(sys::RETRO_DEVICE_ID_JOYPAD_L),
        Key::W => Some(sys::RETRO_DEVICE_ID_JOYPAD_R),
        _ => None,
    }
}

/// Setting one bit changes that bit alone.
proof fn lemma_set_bit(m: u16, id: u16)
    requires
        id < 16,
    ensures
        forall|b: u16| b < 16 ==> (#[trigger] held(m | (1u16 << id), b) == (held(m, b) || b == id)),
{
    assert forall|b: u16| b < 16 implies (#[trigger] held(m | (1u16 << id), b) == (held(m, b) || b
        == id)) by {
        assert(id < 16 && b < 16 ==> ((((m | (1u16 << id)) >> b) & 1u16 == 1u16) == (((m >> b)
            & 1u16 == 1u16) || b == id))) by (bit_vector);
    }
}

/// Keyboard defaults, for the very common case of a laptop with no
/// controller: without them the game would start and be uncontrollable.
/// `pressed` lists the keys held right now; a button is held exactly when
/// some held key stands for it. The layout: the arrows are the D-pad, Z is
/// B and X is A under the left hand, A is Y and S is X above them, Enter is
/// Start, Backspace is Select, Q the left shoulder and W the right; nothing
/// presses L2, R2, L3 or R3.
pub fn retropad_from_keys(pressed: &[Key]) -> (mask: u16)
    ensures
        forall|b: u16|
            b < 16 ==> (#[trigger] held(mask, b) <==> exists|i: int|
                0 <= i < pressed@.len() && key_retropad_id(#[trigger] pressed@[i]) == Some(b as u32)),
        held(mask, sys::RETRO_DEVICE_ID_JOYPAD_UP as u16) == pressed@.contains(Key::ArrowUp),
        held(mask, sys::RETRO_DEVICE_ID_JOYPAD_DOWN as u16) == pressed@.contains(Key::ArrowDown),
        held(mask, sys::RETRO_DEVICE_ID_JOYPAD_LEFT as u16) == pressed@.contains(Key::ArrowLeft),
        held(mask, sys::RETRO_DEVICE_ID_JOYPAD_RIGHT as u16) == pressed@.contains(Key::ArrowRight),
        held(mask, sys::RETRO_DEVICE_ID_JOYPAD_B as u16) == pressed@.contains(Key::Z),
        held(mask, sys::RETRO_DEVICE_ID_JOYPAD_A as u16) == pressed@.contains(Key::X),
        held(mask, sys::RETRO_DEVICE_ID_JOYPAD_Y as u16) == pressed@.contains(Key::A),
        held(mask, sys::RETRO_DEVICE_ID_JOYPAD_X as u16) == pressed@.contains(Key::S),
        held(mask, sys::RETRO_DEVICE_ID_JOYPAD_START as u16) == pressed@.contains(Key::Enter),
        held(mask, sys::RETRO_DEVICE_ID_JOYPAD_SELECT as u16) == pressed@.contains(Key::Backspace),
        held(mask, sys::RETRO_DEVICE_ID_JOYPAD_L as u16) == pressed@.contains(Key::Q),
        held(mask, sys::RETRO_DEVICE_ID_JOYPAD_R as u16) == pressed@.contains(Key::W),
        !held(mask, sys::RETRO_DEVICE_ID_JOYPAD_L2 as u16),
        !held(mask, sys::RETRO_DEVICE_ID_JOYPAD_R2 as u16),
        !held(mask, sys::RETRO_DEVICE_ID_JOYPAD_L3 as u16),
        !held(mask, sys::RETRO_DEVICE_ID_JOYPAD_R3 as u16),
{
    let mut mask: u16 = 0;
    let mut i: usize = 0;
    assert forall|b: u16| b < 16 implies !#[trigger] held(0u16, b) by {
        assert(b < 16 ==> (0u16 >> b) & 1u16 == 0u16) by (bit_vector);
    }
    while i < pressed.len()
        invariant
            i <= pressed@.len(),
            forall|b: u16|
                b < 16 ==> (#[trigger] held(mask, b) <==> exists|k: int|
                    0 <= k < i && key_retropad_id(#[trigger] pressed@[k]) == Some(b as u32)),
        decreases pressed@.len() - i,
    {
        let ghost before = mask;
        match key_id(pressed[i]) {
            Some(id) => {
                let bit = id as u16;
                proof {
                    lemma_set_bit(mask, bit);
                }
                mask = mask | (1u16 << bit);
            },
            None => {},
        }
        proof {
            assert forall|b: u16| b < 16 implies (#[trigger] held(mask, b) <==> exists|k: int|
                0 <= k < i + 1 && key_retropad_id(#[trigger] pressed@[k]) == Some(b as u32)) by {
                if held(mask, b) && !held(before, b) {
                    assert(key_retropad_id(pressed@[i as int]) == Some(b as u32));
                }
                if exists|k: int| 0 <= k < i + 1 && key_retropad_id(#[trigger] pressed@[k]) == Some(
                    b as u32,
                ) {
                    let k = choose|k: int|
                        0 <= k < i + 1 && key_retropad_id(#[trigger] pressed@[k]) == Some(
                            b as u32,
                        );
                    if k < i {
                        assert(held(before, b));
                    }
                }
            }
        }
        i += 1;
    }
    proof {
        lemma_keys_press_their_buttons(pressed@, mask);
    }
    mask
}

proof fn lemma_keys_press_their_buttons(pressed: Seq<Key>, mask: u16)
    requires
        forall|b: u16|
            b < 16 ==> (#[trigger] held(mask, b) <==> exists|i: int|
                0 <= i < pressed.len() && key_retropad_id(#[trigger] pressed[i]) == Some(b as u32)),
    ensures
        held(mask, sys::RETRO_DEVICE_ID_JOYPAD_UP as u16) == pressed.contains(Key::ArrowUp),
        held(mask, sys::RETRO_DEVICE_ID_JOYPAD_DOWN as u16) == pressed.contains(Key::ArrowDown),
        held(mask, sys::RETRO_DEVICE_ID_JOYPAD_LEFT as u16) == pressed.contains(Key::ArrowLeft),
        held(mask, sys::RETRO_DEVICE_ID_JOYPAD_RIGHT as u16) == pressed.contains(Key::ArrowRight),
        held(mask, sys::RETRO_DEVICE_ID_JOYPAD_B as u16) == pressed.contains(Key::Z),
        held(mask, sys::RETRO_DEVICE_ID_JOYPAD_A as u16) == pressed.contains(Key::X),
        held(mask, sys::RETRO_DEVICE_ID_JOYPAD_Y as u16) == pressed.contains(Key::A),
        held(mask, sys::RETRO_DEVICE_ID_JOYPAD_X as u16) == pressed.contains(Key::S),
        held(mask, sys::RETRO_DEVICE_ID_JOYPAD_START as u16) == pressed.contains(Key::Enter),
        held(mask, sys::RETRO_DEVICE_ID_JOYPAD_SELECT as u16) == pressed.contains(Key::Backspace),
        held(mask, sys::RETRO_DEVICE_ID_JOYPAD_L as u16) == pressed.contains(Key::Q),
        held(mask, sys::RETRO_DEVICE_ID_JOYPAD_R as u16) == pressed.contains(Key::W),
        !held(mask, sys::RETRO_DEVICE_ID_JOYPAD_L2 as u16),
        !held(mask, sys::RETRO_DEVICE_ID_JOYPAD_R2 as u16),
        !held(mask, sys::RETRO_DEVICE_ID_JOYPAD_L3 as u16),
        !held(mask, sys::RETRO_DEVICE_ID_JOYPAD_R3 as u16),
{
    assert forall|b: u16, k: Key| b < 16 && key_retropad_id(k) == Some(b as u32) implies (held(mask, b)
        == pressed.contains(k)) by {
        assert(held(mask, b) <==> exists|i: int|
            0 <= i < pressed.len() && key_retropad_id(#[trigger] pressed[i]) == Some(b as u32));
        if held(mask, b) {
            let i = choose|i: int| 0 <= i < pressed.len() && key_retropad_id(#[trigger] pressed[i]) == Some(b as u32);
            assert(pressed[i] == k);
        }
        if pressed.contains(k) {
            let i = choose|i: int| 0 <= i < pressed.len() && pressed[i] == k;
            assert(key_retropad_id(pressed[i]) == Some(b as u32));
        }
    }
    assert forall|b: u16| 12 <= b < 16 implies !held(mask, b) by {
        assert(held(mask, b) <==> exists|i: int|
            0 <= i < pressed.len() && key_retropad_id(#[trigger] pressed[i]) == Some(b as u32));
    }
    assert(key_retropad_id(Key::ArrowUp) == Some(sys::RETRO_DEVICE_ID_JOYPAD_UP));
    assert(key_retropad_id(Key::ArrowDown) == Some(sys::RETRO_DEVICE_ID_JOYPAD_DOWN));
    assert(key_retropad_id(Key::ArrowLeft) == Some(sys::RETRO_DEVICE_ID_JOYPAD_LEFT));
    assert(key_retropad_id(Key::ArrowRight) == Some(sys::RETRO_DEVICE_ID_JOYPAD_RIGHT));
    assert(key_retropad_id(Key::Z) == Some(sys::RETRO_DEVICE_ID_JOYPAD_B));
    assert(key_retropad_id(Key::X) == Some(sys::RETRO_DEVICE_ID_JOYPAD_A));
    assert(key_retropad_id(Key::A) == Some(sys::RETRO_DEVICE_ID_JOYPAD_Y));
    assert(key_retropad_id(Key::S) == Some(sys::RETRO_DEVICE_ID_JOYPAD_X));
    assert(key_retropad_id(Key::Enter) == Some(sys::RETRO_DEVICE_ID_JOYPAD_START));
    assert(key_retropad_id(Key::Backspace) == Some(sys::RETRO_DEVICE_ID_JOYPAD_SELECT));
    assert(key_retropad_id(Key::Q) == Some(sys::RETRO_DEVICE_ID_JOYPAD_L));
    assert(key_retropad_id(Key::W) == Some(sys::RETRO_DEVICE_ID_JOYPAD_R));
}

/// Which RetroPad id a controller button is, by position throughout.
pub open spec fn button_retropad_id(button: PadButton) -> Option<u32> {
    match button {
        PadButton::DPadUp => Some(sys::RETRO_DEVICE_ID_JOYPAD_UP),
        PadButton::DPadDown => Some(sys::RETRO_DEVICE_ID_JOYPAD_DOWN),
        PadButton::DPadLeft => Some(sys::RETRO_DEVICE_ID_JOYPAD_LEFT),
        PadButton::DPadRight => Some(sys::RETRO_DEVICE_ID_JOYPAD_RIGHT),
        PadButton::South => Some(sys::RETRO_DEVICE_ID_JOYPAD_B),
        PadButton::East => Some(sys::RETRO_DEVICE_ID_JOYPAD_A),
        PadButton::West => Some(sys::RETRO_DEVICE_ID_JOYPAD_Y),
        PadButton::North => Some(sys::RETRO_DEVICE_ID_JOYPAD_X),
        PadButton::LeftTrigger => Some(sys::RETRO_DEVICE_ID_JOYPAD_L),
        PadButton::RightTrigger => Some(sys::RETRO_DEVICE_ID_JOYPAD_R),
        PadButton::LeftTrigger2 => Some(sys::RETRO_DEVICE_ID_JOYPAD_L2),
        PadButton::RightTrigger2 => Some(sys::RETRO_DEVICE_ID_JOYPAD_R2),
        PadButton::LeftThumb => Some(sys::RETRO_DEVICE_ID_JOYPAD_L3),
        PadButton::RightThumb => Some(sys::RETRO_DEVICE_ID_JOYPAD_R3),
        PadButton::Start => Some(sys::RETRO_DEVICE_ID_JOYPAD_START),
        PadButton::Select => Some(sys::RETRO_DEVICE_ID_JOYPAD_SELECT),
        _ => None,
    }
}

/// Which RetroPad id a controller button maps to; buttons a RetroPad has no
/// equivalent for map to nothing rather than being folded onto another.
pub fn retropad_id_for_button(button: PadButton) -> (id: Option<u32>)
    ensures
        id == button_retropad_id(button),
{
    match button {
        PadButton::DPadUp => Some(sys::RETRO_DEVICE_ID_JOYPAD_UP),
        PadButton::DPadDown => Some(sys::RETRO_DEVICE_ID_JOYPAD_DOWN),
        PadButton::DPadLeft => Some(sys::RETRO_DEVICE_ID_JOYPAD_LEFT),
        PadButton::DPadRight => Some(sys::RETRO_DEVICE_ID_JOYPAD_RIGHT),
        PadButton::South => Some(sys::RETRO_DEVICE_ID_JOYPAD_B),
        PadButton::East => Some(sys::RETRO_DEVICE_ID_JOYPAD_A),
        PadButton::West => Some(sys::RETRO_DEVICE_ID_JOYPAD_Y),
        PadButton::North => Some(sys::RETRO_DEVICE_ID_JOYPAD_X),
        PadButton::LeftTrigger => Some(sys::RETRO_DEVICE_ID_JOYPAD_L),
        PadButton::RightTrigger => Some(sys::RETRO_DEVICE_ID_JOYPAD_R),
        PadButton::LeftTrigger2 => Some(sys::RETRO_DEVICE_ID_JOYPAD_L2),
        PadButton::RightTrigger2 => Some(sys::RETRO_DEVICE_ID_JOYPAD_R2),
        PadButton::LeftThumb => Some(sys::RETRO_DEVICE_ID_JOYPAD_L3),
        PadButton::RightThumb => Some(sys::RETRO_DEVICE_ID_JOYPAD_R3),
        PadButton::Start => Some(sys::RETRO_DEVICE_ID_JOYPAD_START),
        PadButton::Select => Some(sys::RETRO_DEVICE_ID_JOYPAD_SELECT),
        _ => None,
    }
}

/// Controller buttons press RetroPad buttons by position: the bottom face
/// button is B, the right one A, the left one Y and the top one X; the
/// D-pad, shoulders, triggers, stick clicks, Start and Select are their
/// namesakes; each RetroPad button comes from that one controller button.
pub proof fn lemma_buttons_press_by_position(button: PadButton)
    ensures
        (button_retropad_id(button) == Some(sys::RETRO_DEVICE_ID_JOYPAD_UP)) == (button == PadButton::DPadUp),
        (button_retropad_id(button) == Some(sys::RETRO_DEVICE_ID_JOYPAD_DOWN)) == (button == PadButton::DPadDown),
        (button_retropad_id(button) == Some(sys::RETRO_DEVICE_ID_JOYPAD_LEFT)) == (button == PadButton::DPadLeft),
        (button_retropad_id(button) == Some(sys::RETRO_DEVICE_ID_JOYPAD_RIGHT)) == (button == PadButton::DPadRight),
        (button_retropad_id(button) == Some(sys::RETRO_DEVICE_ID_JOYPAD_B)) == (button == PadButton::South),
        (button_retropad_id(button) == Some(sys::RETRO_DEVICE_ID_JOYPAD_A)) == (button == PadButton::East),
        (button_retropad_id(button) == Some(sys::RETRO_DEVICE_ID_JOYPAD_Y)) == (button == PadButton::West),
        (button_retropad_id(button) == Some(sys::RETRO_DEVICE_ID_JOYPAD_X)) == (button == PadButton::North),
        (button_retropad_id(button) == Some(sys::RETRO_DEVICE_ID_JOYPAD_L)) == (button == PadButton::LeftTrigger),
        (button_retropad_id(button) == Some(sys::RETRO_DEVICE_ID_JOYPAD_R)) == (button == PadButton::RightTrigger),
        (button_retropad_id(button) == Some(sys::RETRO_DEVICE_ID_JOYPAD_L2)) == (button == PadButton::LeftTrigger2),
        (button_retropad_id(button) == Some(sys::RETRO_DEVICE_ID_JOYPAD_R2)) == (button == PadButton::RightTrigger2),
        (button_retropad_id(button) == Some(sys::RETRO_DEVICE_ID_JOYPAD_L3)) == (button == PadButton::LeftThumb),
        (button_retropad_id(button) == Some(sys::RETRO_DEVICE_ID_JOYPAD_R3)) == (button == PadButton::RightThumb),
        (button_retropad_id(button) == Some(sys::RETRO_DEVICE_ID_JOYPAD_START)) == (button == PadButton::Start),
        (button_retropad_id(button) == Some(sys::RETRO_DEVICE_ID_JOYPAD_SELECT)) == (button == PadButton::Select),
{
}

/// Every RetroPad id is reachable from exactly one controller button: none
/// is missing and none is doubled.
pub proof fn lemma_every_retropad_id_is_reached_once(id: u32, b1: PadButton, b2: PadButton)
    requires
        id < sys::JOYPAD_BUTTON_COUNT,
    ensures
        exists|b: PadButton| button_retropad_id(b) == Some(id),
        button_retropad_id(b1) == Some(id) && button_retropad_id(b2) == Some(id) ==> b1 == b2,
{
    let b = if id == 0 {
        PadButton::South
    } else if id == 1 {
        PadButton::West
    } else if id == 2 {
        PadButton::Select
    } else if id == 3 {
        PadButton::Start
    } else if id == 4 {
        PadButton::DPadUp
    } else if id == 5 {
        PadButton::DPadDown
    } else if id == 6 {
        PadButton::DPadLeft
    } else if id == 7 {
        PadButton::DPadRight
    } else if id == 8 {
        PadButton::East
    } else if id == 9 {
        PadButton::North
    } else if id == 10 {
        PadButton::LeftTrigger
    } else if id == 11 {
        PadButton::RightTrigger
    } else if id == 12 {
        PadButton::LeftTrigger2
    } else if id == 13 {
        PadButton::RightTrigger2
    } else if id == 14 {
        PadButton::LeftThumb
    } else {
        PadButton::RightThumb
    };
    assert(button_retropad_id(b) == Some(id));
}

/// Left stick pushed past this, in thousandths of full deflection, counts as
/// a D-pad press: plenty of games only read the D-pad. Lower than the menu
/// threshold, because in-game movement should feel responsive.
pub const STICK_DEADZONE: i32 = 500;

/// The mask after folding in the stick: a D-pad direction is added when the
/// stick is pushed that way, and nothing else changes. Y is positive up.
pub open spec fn stick_applied(mask: u16, x: i32, y: i32, b: u16) -> bool {
    ||| held(mask, b)
    ||| b == sys::RETRO_DEVICE_ID_JOYPAD_LEFT && x <= -STICK_DEADZONE
    ||| b == sys::RETRO_DEVICE_ID_JOYPAD_RIGHT && x >= STICK_DEADZONE
    ||| b == sys::RETRO_DEVICE_ID_JOYPAD_UP && y >= STICK_DEADZONE
    ||| b == sys::RETRO_DEVICE_ID_JOYPAD_DOWN && y <= -STICK_DEADZONE
}

/// Fold an analog stick position (thousandths, Y up) into the D-pad bits of a
/// mask, adding to what is held rather than replacing it.
pub fn apply_stick(mask: u16, x: i32, y: i32) -> (out: u16)
    ensures
        forall|b: u16| b < 16 ==> #[trigger] held(out, b) == stick_applied(mask, x, y, b),
{
    let mut m = mask;
    if x <= -STICK_DEADZONE {
        proof {
            lemma_set_bit(m, 6);
        }
        m = m | (1u16 << 6u16);
    }
    let ghost m1 = m;
    if x >= STICK_DEADZONE {
        proof {
            lemma_set_bit(m, 7);
        }
        m = m | (1u16 << 7u16);
    }
    let ghost m2 = m;
    if y >= STICK_DEADZONE {
        proof {
            lemma_set_bit(m, 4);
        }
        m = m | (1u16 << 4u16);
    }
    let ghost m3 = m;
    if y <= -STICK_DEADZONE {
        proof {
            lemma_set_bit(m, 5);
        }
        m = m | (1u16 << 5u16);
    }
    proof {
        assert forall|b: u16| b < 16 implies #[trigger] held(m, b) == stick_applied(mask, x, y, b) by {
            assert(held(m1, b) == (held(mask, b) || (b == 6 && x <= -STICK_DEADZONE)));
            assert(held(m2, b) == (held(m1, b) || (b == 7 && x >= STICK_DEADZONE)));
            assert(held(m3, b) == (held(m2, b) || (b == 4 && y >= STICK_DEADZONE)));
        }
    }
    m
}

/// A resting stick presses nothing: sticks drift, and without a dead zone the
/// character would walk on its own.
pub proof fn lemma_a_resting_stick_presses_nothing(mask: u16, x: i32, y: i32, b: u16)
    requires
        -STICK_DEADZONE < x < STICK_DEADZONE,
        -STICK_DEADZONE < y < STICK_DEADZONE,
        b < 16,
    ensures
        stick_applied(mask, x, y, b) == held(mask, b),
{
}

} // verus!
