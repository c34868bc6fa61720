use rustromm::models::{human_size, Platform, Rom, RomFile};

fn rom(name: Option<&str>, fs_name: &str, ext: &str) -> Rom {
    Rom {
        id: 7,
        name: name.map(|s| s.to_string()),
        fs_name: fs_name.to_string(),
        fs_extension: ext.to_string(),
        fs_size_bytes: 0,
        platform_id: 1,
        platform_slug: "gb".to_string(),
        platform_display_name: "Game Boy".to_string(),
        summary: None,
        path_cover_small: None,
        path_cover_large: None,
        has_multiple_files: false,
        files: Vec::new(),
        missing_from_fs: false,
    }
}

fn float_human_size(bytes: i64) -> String {
    let units = ["B", "KB", "MB", "GB", "TB"];
    if bytes <= 0 {
        return "—".to_string();
    }
    let mut size = bytes as f64;
    let mut unit = 0;
    while size >= 1024.0 && unit < units.len() - 1 {
        size /= 1024.0;
        unit += 1;
    }
    if unit == 0 {
        format!("{} {}", bytes, units[unit])
    } else {
        format!("{size:.1} {}", units[unit])
    }
}

#[test]
fn sizes_are_shown_in_the_largest_unit_reached() {
    assert_eq!(human_size(0), "—");
    assert_eq!(human_size(-5), "—");
    assert_eq!(human_size(1023), "1023 B");
    assert_eq!(human_size(1024), "1.0 KB");
    assert_eq!(human_size(1536), "1.5 KB");
    assert_eq!(human_size(1_073_741_824), "1.0 GB");
    assert_eq!(human_size(5 * 1_099_511_627_776), "5.0 TB");
    assert_eq!(human_size(2048 * 1_099_511_627_776), "2048.0 TB");
}

#[test]
fn ties_round_to_even_as_float_formatting_does() {
    // 1.25 KB and 1.75 KB are exact in binary, so they are true ties.
    assert_eq!(human_size(1280), "1.2 KB");
    assert_eq!(human_size(1792), "1.8 KB");
    for bytes in [
        1i64, 999, 1000, 1025, 1280, 1300, 1792, 10_000, 123_456, 1_048_575, 1_048_576,
        734_003_200, 4_700_000_000, 1_500_000_000_000, 9_007_199_254_740_991,
    ] {
        assert_eq!(human_size(bytes), float_human_size(bytes), "{bytes}");
    }
    let mut b: i64 = 1;
    while b < 1 << 52 {
        assert_eq!(human_size(b), float_human_size(b), "{b}");
        assert_eq!(human_size(b * 3 + 7), float_human_size(b * 3 + 7), "{}", b * 3 + 7);
        b = b * 5 / 3 + 1;
    }
}

#[test]
fn unidentified_roms_fall_back_to_the_file_name() {
    assert_eq!(
        rom(Some("2-in-1 Cosmo Cop + Cyber Monster"), "2-in-1 Cosmo Cop + Cyber Monster (Sachen) [U][!].nes", "nes").title(),
        "2-in-1 Cosmo Cop + Cyber Monster"
    );
    assert_eq!(rom(None, "Some Unidentified Game.smc", "smc").title(), "Some Unidentified Game.smc");
    assert_eq!(rom(None, "Tetris.gb", "gb").title(), "Tetris.gb");
    assert_eq!(rom(Some("  "), "Tetris.gb", "gb").title(), "Tetris.gb");
    assert_eq!(rom(Some("Tetris"), "Tetris.gb", "gb").title(), "Tetris");
}

#[test]
fn empty_cover_path_is_treated_as_absent() {
    // RomM sends "" rather than null for missing art; both must mean "no cover".
    let mut first = rom(Some("2-in-1 Cosmo Cop + Cyber Monster"), "2-in-1 Cosmo Cop + Cyber Monster (Sachen) [U][!].nes", "nes");
    first.path_cover_small = Some(String::new());
    first.path_cover_large = None;
    assert_eq!(first.cover_path(), None);
    let mut second = rom(None, "Some Unidentified Game.smc", "smc");
    second.path_cover_small = Some("assets/romm/resources/covers/4001/small.png".to_string());
    assert_eq!(second.cover_path(), Some("assets/romm/resources/covers/4001/small.png"));
}

#[test]
fn a_blank_small_cover_falls_back_to_the_large_one() {
    let mut r = rom(None, "a.gb", "gb");
    assert_eq!(r.cover_path(), None);
    r.path_cover_large = Some("/covers/big.png".to_string());
    assert_eq!(r.cover_path(), Some("/covers/big.png"));
    r.path_cover_small = Some("/covers/small.png".to_string());
    assert_eq!(r.cover_path(), Some("/covers/small.png"));
    r.path_cover_small = Some("  ".to_string());
    assert_eq!(r.cover_path(), Some("/covers/big.png"));
    r.path_cover_small = Some(String::new());
    assert_eq!(r.cover_path(), Some("/covers/big.png"));
    r.path_cover_large = Some(" ".to_string());
    assert_eq!(r.cover_path(), None);
}

#[test]
fn multi_file_roms_are_saved_as_zip() {
    let mut disc = rom(Some("Test Game"), "Final Fantasy VII (Disc 1).nes", "nes");
    disc.has_multiple_files = true;
    assert_eq!(disc.download_file_name(), "Final Fantasy VII (Disc 1).zip");
    let single = rom(Some("Test Game"), "Sonic.nes", "nes");
    assert_eq!(single.download_file_name(), "Sonic.nes");
    let mut r = rom(None, "Final Fantasy VII.m3u", "m3u");
    assert_eq!(r.download_file_name(), "Final Fantasy VII.m3u");
    r.has_multiple_files = true;
    assert_eq!(r.download_file_name(), "Final Fantasy VII.zip");
    let mut r = rom(None, "Game", "bin");
    r.files = vec![
        RomFile { id: 1, file_name: "a.bin".into(), file_size_bytes: 1 },
        RomFile { id: 2, file_name: "b.bin".into(), file_size_bytes: 1 },
    ];
    assert_eq!(r.download_file_name(), "Game.zip");
}

#[test]
fn platforms_expose_custom_names() {
    let mut p = Platform {
        id: 1,
        name: "Sega Mega Drive".into(),
        slug: "genesis".into(),
        fs_slug: "genesis".into(),
        rom_count: 10,
        custom_name: Some("Genesis".into()),
    };
    assert_eq!(p.display_name(), "Genesis");
    p.custom_name = Some(" ".into());
    assert_eq!(p.display_name(), "Sega Mega Drive");
    p.custom_name = None;
    assert_eq!(p.display_name(), "Sega Mega Drive");
}
