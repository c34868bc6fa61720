use rustromm::libretro::cores::{
    buildbot_dir, core_library_from_download, no_cores_message, CoreFetchError, core_for_platform, download_url, lib_extension, library_file_name, missing_bios,
    NoCore, GENESIS_PLUS_GX, HANDY, MGBA, FCEUMM, SNES9X, STELLA, GEARCOLECO,
};

#[test]
fn the_platforms_in_a_real_library_all_resolve() {
    let playable = [
        "atari2600",
        "atari5200",
        "atari7800",
        "colecovision",
        "gamegear",
        "gb",
        "gbc",
        "genesis",
        "lynx",
        "nes",
        "sega32",
        "sms",
        "snes",
    ];
    for slug in playable {
        assert!(
            core_for_platform(slug).is_ok(),
            "{slug} has no core and it is in a real library"
        );
    }
    for slug in ["psp", "mame", "scummvm", "jaguar", "ports"] {
        let err = core_for_platform(slug).unwrap_err();
        assert!(
            err.message().len() > 20,
            "{slug} needs a real explanation, got: {}",
            err.message()
        );
    }
}

#[test]
fn slugs_match_regardless_of_case_or_surrounding_space() {
    assert_eq!(core_for_platform("NES"), Ok(FCEUMM));
    assert_eq!(core_for_platform("  gb  "), Ok(MGBA));
    assert_eq!(core_for_platform("Game-Boy-Color"), Ok(MGBA));
}

#[test]
fn one_core_covers_the_whole_sega_8_and_16_bit_family() {
    for slug in ["genesis", "megadrive", "sms", "gamegear", "sg1000"] {
        assert_eq!(core_for_platform(slug), Ok(GENESIS_PLUS_GX), "{slug}");
    }
    for slug in ["gb", "gbc", "gba"] {
        assert_eq!(core_for_platform(slug), Ok(MGBA), "{slug}");
    }
}

#[test]
fn unknown_platforms_get_an_explanation_rather_than_a_panic() {
    let err = core_for_platform("some-future-console").unwrap_err();
    assert!(matches!(err, NoCore::Unsupported(_)));
    assert!(!err.message().is_empty());
    assert_eq!(err.message(), "No embedded core is mapped to this platform yet.");
}

#[test]
fn gpu_only_platforms_are_distinguished_from_merely_unsupported_ones() {
    assert!(matches!(core_for_platform("psp"), Err(NoCore::NeedsGpu(_))));
    assert!(matches!(core_for_platform("n64"), Err(NoCore::NeedsGpu(_))));
    assert!(matches!(
        core_for_platform("mame"),
        Err(NoCore::Unsupported(_))
    ));
}

#[test]
fn download_urls_match_the_buildbot_layout() {
    assert_eq!(
        download_url("linux/x86_64", "gambatte", "so"),
        "https://buildbot.libretro.com/nightly/linux/x86_64/latest/gambatte_libretro.so.zip"
    );
    assert_eq!(
        download_url("apple/osx/arm64", "mgba", "dylib"),
        "https://buildbot.libretro.com/nightly/apple/osx/arm64/latest/mgba_libretro.dylib.zip"
    );
    assert_eq!(
        download_url("windows/x86_64", "snes9x", "dll"),
        "https://buildbot.libretro.com/nightly/windows/x86_64/latest/snes9x_libretro.dll.zip"
    );
}

#[test]
fn this_platform_has_a_buildbot_directory_unless_it_is_windows_arm() {
    assert_eq!(buildbot_dir("windows", "aarch64"), None);
    assert_eq!(buildbot_dir("linux", "x86_64"), Some("linux/x86_64"));
    assert_eq!(buildbot_dir("linux", "aarch64"), Some("linux/aarch64"));
    assert_eq!(buildbot_dir("macos", "x86_64"), Some("apple/osx/x86_64"));
    assert_eq!(buildbot_dir("macos", "aarch64"), Some("apple/osx/arm64"));
    assert_eq!(buildbot_dir("windows", "x86_64"), Some("windows/x86_64"));
}

#[test]
fn a_missing_bios_is_detected_before_the_core_is_ever_called() {
    let none: Vec<String> = Vec::new();
    assert_eq!(missing_bios(&HANDY, &none), vec!["lynxboot.img"]);
    let present = vec!["lynxboot.img".to_string()];
    assert!(missing_bios(&HANDY, &present).is_empty());
    assert!(missing_bios(&MGBA, &none).is_empty());
    assert!(missing_bios(&STELLA, &none).is_empty());
    assert_eq!(missing_bios(&GEARCOLECO, &present), vec!["colecovision.rom"]);
}

#[test]
fn non_free_cores_say_so() {
    assert!(SNES9X.licence().contains("non-commercial"));
    assert!(GENESIS_PLUS_GX.licence().contains("non-commercial"));
    assert!(MGBA.licence().contains("MPL"));
}

#[test]
fn library_files_use_the_platform_extension() {
    assert_eq!(lib_extension("windows"), "dll");
    assert_eq!(lib_extension("macos"), "dylib");
    assert_eq!(lib_extension("linux"), "so");
    assert_eq!(library_file_name("mgba", "so"), "mgba_libretro.so");
    assert_eq!(MGBA.name(), "mgba");
}

fn zipped(name: &str, contents: &[u8]) -> Vec<u8> {
    let mut z = zip::ZipWriter::new(std::io::Cursor::new(Vec::new()));
    z.start_file::<_, ()>(name, Default::default()).unwrap();
    std::io::Write::write_all(&mut z, contents).unwrap();
    z.finish().unwrap().into_inner()
}

#[test]
fn a_downloaded_core_is_unpacked_from_its_zip() {
    let good = zipped("mgba_libretro.so", b"\x7fELF library");
    assert_eq!(core_library_from_download(&good, "mgba", "so"), Ok(b"\x7fELF library".to_vec()));

    let wrong = zipped("readme.txt", b"hello");
    let err = core_library_from_download(&wrong, "mgba", "so").unwrap_err();
    assert_eq!(err, CoreFetchError::MissingLibrary("mgba".into(), "mgba_libretro.so".into()));
    assert_eq!(err.message(), "the mgba download did not contain mgba_libretro.so");

    let err = core_library_from_download(b"<html>404</html>", "mgba", "so").unwrap_err();
    assert_eq!(err, CoreFetchError::NotAZip("mgba".into()));
    assert_eq!(err.message(), "mgba did not download as a valid zip");
}

#[test]
fn windows_on_arm_is_told_what_to_do_instead() {
    let m = no_cores_message("windows", "aarch64");
    assert!(m.starts_with("no libretro cores are published for aarch64 on windows."));
    assert!(m.contains("x86_64 build"));
}

#[test]
fn a_library_that_does_not_unpack_reports_the_read_error() {
    let payload = b"\x7fELF library that will be damaged";
    let mut z = zip::ZipWriter::new(std::io::Cursor::new(Vec::new()));
    let options = zip::write::FileOptions::<()>::default().compression_method(zip::CompressionMethod::Stored);
    z.start_file("mgba_libretro.so", options).unwrap();
    std::io::Write::write_all(&mut z, payload).unwrap();
    let mut bytes = z.finish().unwrap().into_inner();
    let at = bytes.windows(payload.len()).position(|w| w == payload).unwrap();
    bytes[at + 5] ^= 0xff;
    match core_library_from_download(&bytes, "mgba", "so") {
        Err(CoreFetchError::Unreadable(text)) => {
            assert!(!text.is_empty());
            assert_eq!(CoreFetchError::Unreadable(text.clone()).message(), text);
        }
        other => panic!("expected a read error, got {other:?}"),
    }
}
