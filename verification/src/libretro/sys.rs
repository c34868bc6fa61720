//! libretro ABI numbers the frontend's decisions depend on.
//!
//! Mirrors `libretro.h`. The C structs and callback types live with the code
//! that crosses the FFI boundary; what is here is plain numbers.

use vstd::prelude::*;

verus! {

/// The ABI revision this frontend speaks.
pub const RETRO_API_VERSION: u32 = 1;

// ─── Pixel formats ───────────────────────────────────────────────────────────

/// A core that never calls `SET_PIXEL_FORMAT` gets this one.
pub const RETRO_PIXEL_FORMAT_0RGB1555: u32 = 0;
pub const RETRO_PIXEL_FORMAT_XRGB8888: u32 = 1;
pub const RETRO_PIXEL_FORMAT_RGB565: u32 = 2;

// ─── Memory regions ──────────────────────────────────────────────────────────

/// Battery-backed cartridge save. Cores never write this out themselves.
pub const RETRO_MEMORY_SAVE_RAM: u32 = 0;
pub const RETRO_MEMORY_RTC: u32 = 1;
pub const RETRO_MEMORY_SYSTEM_RAM: u32 = 2;
pub const RETRO_MEMORY_VIDEO_RAM: u32 = 3;

// ─── Devices ─────────────────────────────────────────────────────────────────

pub const RETRO_DEVICE_NONE: u32 = 0;
pub const RETRO_DEVICE_JOYPAD: u32 = 1;
pub const RETRO_DEVICE_MOUSE: u32 = 2;
pub const RETRO_DEVICE_KEYBOARD: u32 = 3;
pub const RETRO_DEVICE_LIGHTGUN: u32 = 4;
pub const RETRO_DEVICE_ANALOG: u32 = 5;
pub const RETRO_DEVICE_POINTER: u32 = 6;

// Joypad button ids, in libretro's SNES layout: B is the bottom face button
// and A the right one.
pub const RETRO_DEVICE_ID_JOYPAD_B: u32 = 0;
pub const RETRO_DEVICE_ID_JOYPAD_Y: u32 = 1;
pub const RETRO_DEVICE_ID_JOYPAD_SELECT: u32 = 2;
pub const RETRO_DEVICE_ID_JOYPAD_START: u32 = 3;
pub const RETRO_DEVICE_ID_JOYPAD_UP: u32 = 4;
pub const RETRO_DEVICE_ID_JOYPAD_DOWN: u32 = 5;
pub const RETRO_DEVICE_ID_JOYPAD_LEFT: u32 = 6;
pub const RETRO_DEVICE_ID_JOYPAD_RIGHT: u32 = 7;
pub const RETRO_DEVICE_ID_JOYPAD_A: u32 = 8;
pub const RETRO_DEVICE_ID_JOYPAD_X: u32 = 9;
pub const RETRO_DEVICE_ID_JOYPAD_L: u32 = 10;
pub const RETRO_DEVICE_ID_JOYPAD_R: u32 = 11;
pub const RETRO_DEVICE_ID_JOYPAD_L2: u32 = 12;
pub const RETRO_DEVICE_ID_JOYPAD_R2: u32 = 13;
pub const RETRO_DEVICE_ID_JOYPAD_L3: u32 = 14;
pub const RETRO_DEVICE_ID_JOYPAD_R3: u32 = 15;

/// Highest joypad id plus one. Sizes the button state.
pub const JOYPAD_BUTTON_COUNT: usize = 16;

// ─── Environment commands ────────────────────────────────────────────────────

pub const RETRO_ENVIRONMENT_GET_OVERSCAN: u32 = 2;
pub const RETRO_ENVIRONMENT_GET_CAN_DUPE: u32 = 3;
pub const RETRO_ENVIRONMENT_SET_MESSAGE: u32 = 6;
pub const RETRO_ENVIRONMENT_SHUTDOWN: u32 = 7;
pub const RETRO_ENVIRONMENT_SET_PERFORMANCE_LEVEL: u32 = 8;
pub const RETRO_ENVIRONMENT_GET_SYSTEM_DIRECTORY: u32 = 9;
pub const RETRO_ENVIRONMENT_SET_PIXEL_FORMAT: u32 = 10;
pub const RETRO_ENVIRONMENT_SET_INPUT_DESCRIPTORS: u32 = 11;
pub const RETRO_ENVIRONMENT_SET_HW_RENDER: u32 = 14;
pub const RETRO_ENVIRONMENT_GET_VARIABLE: u32 = 15;
pub const RETRO_ENVIRONMENT_SET_VARIABLES: u32 = 16;
pub const RETRO_ENVIRONMENT_GET_VARIABLE_UPDATE: u32 = 17;
pub const RETRO_ENVIRONMENT_SET_SUPPORT_NO_GAME: u32 = 18;
pub const RETRO_ENVIRONMENT_GET_LIBRETRO_PATH: u32 = 19;
pub const RETRO_ENVIRONMENT_GET_INPUT_DEVICE_CAPABILITIES: u32 = 24;
pub const RETRO_ENVIRONMENT_GET_LOG_INTERFACE: u32 = 27;
pub const RETRO_ENVIRONMENT_GET_SAVE_DIRECTORY: u32 = 31;
pub const RETRO_ENVIRONMENT_SET_SYSTEM_AV_INFO: u32 = 32;
pub const RETRO_ENVIRONMENT_SET_GEOMETRY: u32 = 37;
pub const RETRO_ENVIRONMENT_GET_LANGUAGE: u32 = 39;
pub const RETRO_ENVIRONMENT_GET_PREFERRED_HW_RENDER: u32 = 56;
pub const RETRO_ENVIRONMENT_GET_CORE_OPTIONS_VERSION: u32 = 52;
pub const RETRO_ENVIRONMENT_SET_MESSAGE_EXT: u32 = 60;
pub const RETRO_ENVIRONMENT_SET_CORE_OPTIONS_V2: u32 = 67;
pub const RETRO_ENVIRONMENT_SET_CORE_OPTIONS_V2_INTL: u32 = 68;
pub const RETRO_ENVIRONMENT_SET_SERIALIZATION_QUIRKS: u32 = 44;

/// Commands above this bit are marked experimental in `libretro.h`; the
/// command number itself is the low bits.
pub const RETRO_ENVIRONMENT_EXPERIMENTAL: u32 = 0x10000;

// ─── Serialization quirks ────────────────────────────────────────────────────

pub const RETRO_SERIALIZATION_QUIRK_INCOMPLETE: u64 = 1;
pub const RETRO_SERIALIZATION_QUIRK_MUST_INITIALIZE: u64 = 2;
pub const RETRO_SERIALIZATION_QUIRK_CORE_VARIABLE_SIZE: u64 = 4;
pub const RETRO_SERIALIZATION_QUIRK_FRONT_VARIABLE_SIZE: u64 = 8;
pub const RETRO_SERIALIZATION_QUIRK_SINGLE_SESSION: u64 = 16;
pub const RETRO_SERIALIZATION_QUIRK_ENDIAN_DEPENDENT: u64 = 32;
pub const RETRO_SERIALIZATION_QUIRK_PLATFORM_DEPENDENT: u64 = 64;

// ─── Log levels ──────────────────────────────────────────────────────────────

pub const RETRO_LOG_DEBUG: u32 = 0;
pub const RETRO_LOG_INFO: u32 = 1;
pub const RETRO_LOG_WARN: u32 = 2;
pub const RETRO_LOG_ERROR: u32 = 3;

/// Strip the experimental and private bits, leaving the command number.
pub fn env_command(cmd: u32) -> (n: u32)
    ensures
        n == cmd % 0x10000,
{
    let n = cmd & 0xffff;
    assert(cmd & 0xffff == cmd % 0x10000) by (bit_vector);
    n
}

/// A command flagged experimental still names its base command.
pub proof fn lemma_experimental_bit_is_masked_off(cmd: u32)
    requires
        cmd < RETRO_ENVIRONMENT_EXPERIMENTAL,
    ensures
        (cmd | 0x10000u32) % 0x10000 == cmd,
{
    assert(cmd < 0x10000u32 ==> (cmd | 0x10000u32) % 0x10000 == cmd) by (bit_vector);
}

} // verus!
