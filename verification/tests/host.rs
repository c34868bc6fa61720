use std::path::Path;

use rustromm::libretro::host::{
    check_save_ram_restore, check_state_load, core_file_name, core_path, empty_state_reason,
    frame_span, refresh_frame, strip_line_ends,
    env_answer, extensions_from, input_state, CoreInfo, Diagnostics, EnvAnswer, Forward,
    StateError, MAX_CORE_LOG,
};
use rustromm::libretro::sys;
use rustromm::libretro::video::PixelFormat;

fn info(exts: &[&str], need_fullpath: bool) -> CoreInfo {
    CoreInfo {
        name: "Test".into(),
        version: "1.0".into(),
        extensions: exts.iter().map(|e| e.to_string()).collect(),
        need_fullpath,
    }
}

#[test]
fn extension_matching_ignores_case_and_a_leading_dot() {
    let i = info(&["gb", "gbc", "dmg"], false);
    assert!(i.handles_extension("gb"));
    assert!(i.handles_extension(".gb"));
    assert!(i.handles_extension("GBC"));
    assert!(i.handles_extension(".DMG"));
    assert!(!i.handles_extension("nes"));
    assert!(info(&["gg"], false).handles_extension("GG"));
}

#[test]
fn core_file_names_use_the_platform_extension() {
    for (os, expected) in [("windows", "dll"), ("macos", "dylib"), ("linux", "so")] {
        let n = core_file_name("gambatte", os);
        assert!(n.starts_with("gambatte_libretro."));
        assert!(n.ends_with(expected), "{n} should end with {expected}");
    }
}

#[test]
fn core_paths_land_inside_the_cores_directory() {
    let p = core_path("/tmp/cores", "snes9x", "linux");
    assert_eq!(p, "/tmp/cores/snes9x_libretro.so");
    let p = Path::new(&p);
    assert!(p.starts_with("/tmp/cores"));
    assert_eq!(p.file_name().unwrap(), core_file_name("snes9x", "linux").as_str());
    assert_eq!(core_path("/tmp/cores/", "mgba", "linux"), "/tmp/cores/mgba_libretro.so");
    assert_eq!(core_path("", "mgba", "linux"), "mgba_libretro.so");
}

#[test]
fn extension_lists_are_split_and_lowered() {
    assert_eq!(extensions_from("gb|GBC||dmg|"), vec!["gb", "gbc", "dmg"]);
    assert!(extensions_from("").is_empty());
}

#[test]
fn button_masks_are_read_back_per_port_and_bit() {
    let masks = [
        1u16 << sys::RETRO_DEVICE_ID_JOYPAD_A,
        1u16 << sys::RETRO_DEVICE_ID_JOYPAD_START,
    ];
    let pad = sys::RETRO_DEVICE_JOYPAD;
    assert_eq!(input_state(&masks, 0, pad, 0, sys::RETRO_DEVICE_ID_JOYPAD_A), 1);
    assert_eq!(input_state(&masks, 0, pad, 0, sys::RETRO_DEVICE_ID_JOYPAD_B), 0);
    assert_eq!(input_state(&masks, 1, pad, 0, sys::RETRO_DEVICE_ID_JOYPAD_START), 1);
    assert_eq!(input_state(&masks, 1, pad, 0, sys::RETRO_DEVICE_ID_JOYPAD_A), 0);
    assert_eq!(input_state(&masks, 99, pad, 0, sys::RETRO_DEVICE_ID_JOYPAD_A), 0);
    assert_eq!(input_state(&masks, 0, pad, 0, 999), 0);
    assert_eq!(input_state(&masks, 0, sys::RETRO_DEVICE_MOUSE, 0, 0), 0);
}

#[test]
fn the_environment_callback_answers_the_commands_cores_depend_on() {
    assert_eq!(env_answer(sys::RETRO_ENVIRONMENT_GET_CAN_DUPE, 0), EnvAnswer::AllowDupe);
    assert_eq!(
        env_answer(sys::RETRO_ENVIRONMENT_SET_PIXEL_FORMAT, sys::RETRO_PIXEL_FORMAT_RGB565),
        EnvAnswer::AcceptPixelFormat
    );
    assert_eq!(
        env_answer(sys::RETRO_ENVIRONMENT_SET_PIXEL_FORMAT, 999),
        EnvAnswer::RejectPixelFormat
    );
    assert_eq!(env_answer(31337, 0), EnvAnswer::Refuse);
    assert_eq!(
        env_answer(sys::RETRO_ENVIRONMENT_EXPERIMENTAL | sys::RETRO_ENVIRONMENT_GET_LOG_INTERFACE, 0),
        EnvAnswer::GiveLogInterface
    );
    assert_eq!(env_answer(sys::RETRO_ENVIRONMENT_SHUTDOWN, 0), EnvAnswer::Shutdown);
}

#[test]
fn a_hardware_render_request_is_refused_and_recorded() {
    let mut d = Diagnostics::new();
    for cmd in [
        sys::RETRO_ENVIRONMENT_SET_HW_RENDER,
        sys::RETRO_ENVIRONMENT_GET_PREFERRED_HW_RENDER,
    ] {
        assert_eq!(env_answer(cmd, 0), EnvAnswer::Refuse);
        d.note_refusal(cmd);
    }
    assert!(d.refused_commands.contains(&sys::RETRO_ENVIRONMENT_SET_HW_RENDER));
    assert!(d.refused_commands.contains(&sys::RETRO_ENVIRONMENT_GET_PREFERRED_HW_RENDER));
}

#[test]
fn refused_commands_are_recorded_once_each() {
    let mut d = Diagnostics::new();
    for _ in 0..5 {
        d.note_refusal(31337);
        d.note_refusal(31338);
    }
    assert_eq!(d.refused_commands, vec![31337, 31338]);
}

#[test]
fn core_log_lines_are_tagged_and_errors_forwarded() {
    let mut d = Diagnostics::new();
    assert_eq!(
        d.record_core_log(sys::RETRO_LOG_INFO, "[Test] MBC1 ROM loaded, 8 banks"),
        Forward::Nowhere
    );
    assert_eq!(
        d.record_core_log(sys::RETRO_LOG_ERROR, "missing BIOS: lynxboot.img"),
        Forward::Error
    );
    assert_eq!(d.record_core_log(sys::RETRO_LOG_WARN, "slow"), Forward::Warn);
    d.record_message("Disc 2");
    assert_eq!(d.core_log[0], "[core INFO] [Test] MBC1 ROM loaded, 8 banks");
    assert_eq!(d.core_log[1], "[core ERR ] missing BIOS: lynxboot.img");
    assert_eq!(d.core_log[2], "[core WARN] slow");
    assert_eq!(d.core_log[3], "[core MSG ] Disc 2");
}

#[test]
fn the_core_log_is_bounded() {
    let mut d = Diagnostics::new();
    for i in 0..(MAX_CORE_LOG + 100) {
        d.record_core_log(sys::RETRO_LOG_INFO, &format!("chatter {i}"));
    }
    assert_eq!(d.core_log.len(), MAX_CORE_LOG);
    assert_eq!(
        d.core_log.last().unwrap(),
        &format!("[core INFO] chatter {}", MAX_CORE_LOG + 99)
    );
}

#[test]
fn serialization_quirks_decide_whether_a_state_may_be_persisted() {
    let mut d = Diagnostics::new();
    assert_eq!(d.state_persistence_blocker(), None);
    d.serialization_quirks = Some(0);
    assert_eq!(d.state_persistence_blocker(), None);
    d.serialization_quirks = Some(sys::RETRO_SERIALIZATION_QUIRK_SINGLE_SESSION);
    assert_eq!(
        d.state_persistence_blocker(),
        Some("this core's save states only work until you close the game")
    );
    d.serialization_quirks = Some(sys::RETRO_SERIALIZATION_QUIRK_ENDIAN_DEPENDENT);
    assert!(d.state_persistence_blocker().unwrap().contains("processor"));
    d.serialization_quirks = Some(sys::RETRO_SERIALIZATION_QUIRK_PLATFORM_DEPENDENT);
    assert!(d.state_persistence_blocker().is_some());
}

#[test]
fn save_memory_is_restored_only_at_its_exact_size() {
    assert_eq!(check_save_ram_restore(0, 10), Err(StateError::NoBatterySave));
    assert_eq!(
        check_save_ram_restore(8192, 4096),
        Err(StateError::SaveSizeMismatch(4096, 8192))
    );
    assert_eq!(check_save_ram_restore(8192, 8192), Ok(()));
}

#[test]
fn a_save_state_from_the_wrong_build_is_refused_rather_than_applied() {
    assert_eq!(
        check_state_load("mGBA", 100, 99),
        Err(StateError::StateSizeMismatch(99, 100, "mGBA".to_string()))
    );
    assert_eq!(
        check_state_load("mGBA", 0, 99),
        Err(StateError::StatesUnsupported("mGBA".to_string()))
    );
    assert_eq!(check_state_load("mGBA", 100, 100), Ok(()));
}

#[test]
fn a_zero_state_size_is_not_final_for_cores_that_must_initialise() {
    assert_eq!(
        empty_state_reason("Gambatte", Some(sys::RETRO_SERIALIZATION_QUIRK_MUST_INITIALIZE)),
        StateError::NotYetSerializable("Gambatte".to_string())
    );
    assert_eq!(
        empty_state_reason("Gambatte", None),
        StateError::StatesUnsupported("Gambatte".to_string())
    );
}

#[test]
fn state_errors_explain_themselves() {
    assert_eq!(StateError::NoBatterySave.message(), "this game has no battery save");
    assert_eq!(
        StateError::SaveSizeMismatch(4096, 8192).message(),
        "save is 4096 bytes but this game expects 8192 — refusing to write a partial save"
    );
    assert_eq!(StateError::NoSaveMemory.message(), "core exposes no save memory");
    assert_eq!(StateError::StatesUnsupported("Stella".into()).message(), "Stella does not support save states");
    assert_eq!(
        StateError::NotYetSerializable("Gambatte".into()).message(),
        "Gambatte cannot save a state yet — start the game first"
    );
    assert_eq!(
        StateError::StateSizeMismatch(10, 12, "mGBA".into()).message(),
        "save state is 10 bytes but this core expects 12 — it was probably written by a different version of mGBA"
    );
    assert_eq!(StateError::SaveFailed("X".into()).message(), "X failed to write a save state");
    assert_eq!(StateError::LoadRejected("X".into()).message(), "X rejected the save state");
}

#[test]
fn a_frame_spans_full_rows_and_then_the_last_rows_pixels() {
    assert_eq!(frame_span(160, 144, 512, PixelFormat::Rgb565), Some(512 * 143 + 320));
    assert_eq!(frame_span(0, 144, 512, PixelFormat::Rgb565), None);
    assert_eq!(frame_span(160, 144, 0, PixelFormat::Rgb565), None);
    assert_eq!(frame_span(usize::MAX, 2, 1, PixelFormat::Xrgb8888), None);
}

#[test]
fn a_null_video_frame_keeps_the_previous_one() {
    let mut current = None;
    let src = vec![0xFFu8; 512 * 144];
    refresh_frame(&mut current, Some(&src), 160, 144, 512, sys::RETRO_PIXEL_FORMAT_RGB565);
    assert!(current.is_some());
    let before = current.clone();
    refresh_frame(&mut current, None, 160, 144, 512, sys::RETRO_PIXEL_FORMAT_RGB565);
    assert_eq!(current, before, "a duplicate frame wiped the picture");
    // A frame that cannot be converted also leaves the picture alone.
    refresh_frame(&mut current, Some(&src[..10]), 160, 144, 512, sys::RETRO_PIXEL_FORMAT_RGB565);
    assert_eq!(current, before);
    // An unknown recorded format falls back to the libretro default.
    let mut other = None;
    refresh_frame(&mut other, Some(&[0xFF, 0x7F]), 1, 1, 2, 99);
    assert_eq!(other.unwrap().rgba, vec![255, 255, 255, 255]);
}

#[test]
fn core_log_text_loses_its_line_breaks() {

    assert_eq!(strip_line_ends("[Gambatte] loaded\r\n"), "[Gambatte] loaded");
    assert_eq!(strip_line_ends("a\nb\n\n"), "a\nb");
    assert_eq!(strip_line_ends("plain"), "plain");
    assert_eq!(strip_line_ends("\n"), "");
}

#[test]
fn a_refused_pixel_format_leaves_the_chosen_one_in_force() {
    let mut d = Diagnostics::new();
    let mut active = sys::RETRO_PIXEL_FORMAT_0RGB1555;
    assert!(d.apply_pixel_format(&mut active, sys::RETRO_PIXEL_FORMAT_RGB565));
    assert_eq!(active, sys::RETRO_PIXEL_FORMAT_RGB565);
    assert_eq!(d.pixel_format, Some("RGB565"));
    assert!(!d.apply_pixel_format(&mut active, 999));
    assert_eq!(active, sys::RETRO_PIXEL_FORMAT_RGB565);
    assert_eq!(d.pixel_format, Some("RGB565"));
    assert!(d.refused_commands.is_empty());
}
