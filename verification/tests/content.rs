use std::path::Path;

use rustromm::libretro::content::{
    choose_content, core_reads_zip, extraction_name, is_zip_extension,
    looks_like_archive, ChooseError, Content,
};

fn exts(list: &[&str]) -> Vec<String> {
    list.iter().map(|s| s.to_string()).collect()
}

fn names(list: &[&str]) -> Vec<String> {
    list.iter().map(|s| s.to_string()).collect()
}

#[test]
fn a_plain_rom_is_left_alone() {
    assert!(!looks_like_archive("game.gen"));
    assert!(!looks_like_archive("game.smc"));
    assert!(looks_like_archive("game.zip"));
    assert!(looks_like_archive("GAME.ZIP"));
}

#[test]
fn a_core_that_reads_archives_gets_the_archive() {
    let got = choose_content(&names(&["a.gen", "b.gen"]), &exts(&["gen", "zip"]), true).unwrap();
    assert_eq!(got, Content::AsDownloaded);
}

#[test]
fn the_single_matching_entry_is_chosen() {
    let got = choose_content(
        &names(&["Sonic.gen", "readme.txt", "cover.png"]),
        &exts(&["gen", "md", "bin"]),
        false,
    )
    .unwrap();
    assert_eq!(got, Content::Extract("Sonic.gen".into()));
}

#[test]
fn resource_forks_and_directories_are_not_candidates() {
    let got = choose_content(
        &names(&["Sonic.gen", "__MACOSX/Sonic.gen", "roms/"]),
        &exts(&["gen"]),
        false,
    )
    .unwrap();
    assert_eq!(got, Content::Extract("Sonic.gen".into()));
}

#[test]
fn an_archive_with_nothing_playable_says_what_was_wanted() {
    let err = choose_content(&names(&["readme.txt"]), &exts(&["gen", "md"]), false)
        .unwrap_err()
        .message();
    assert!(err.contains("gen"), "unhelpful error: {err}");
    assert_eq!(
        err,
        "the archive contains nothing this core can read (it wants gen, md)"
    );
}

#[test]
fn a_multi_disc_archive_refuses_rather_than_guessing() {
    let err = choose_content(
        &names(&["Game (Disc 1).bin", "Game (Disc 2).bin"]),
        &exts(&["bin"]),
        false,
    )
    .unwrap_err();
    assert!(matches!(err, ChooseError::Ambiguous(_)));
    let err = err.message();
    assert!(err.contains("2 games"), "got: {err}");
    assert!(err.contains("Disc 1"), "the message should name them: {err}");
}

#[test]
fn extension_matching_ignores_case() {
    let got = choose_content(&names(&["GAME.GEN"]), &exts(&["gen"]), false).unwrap();
    assert_eq!(got, Content::Extract("GAME.GEN".into()));
}

#[test]
fn entry_extensions_are_read_after_the_last_dot_of_the_last_component() {
    let got = choose_content(&names(&["dir.v2/Game.Name.SFC", "dir.v2/README"]), &exts(&["sfc"]), false).unwrap();
    assert_eq!(got, Content::Extract("dir.v2/Game.Name.SFC".into()));
    assert!(looks_like_archive("/home/me/roms/Sonic (W).ZIP"));
    assert!(!looks_like_archive("/home/me/roms.zip/Sonic"));
}

#[test]
fn a_backslash_in_an_entry_is_read_as_the_platform_reads_it() {
    // On Unix `\` is an ordinary character, so this entry's extension is
    // `gb`; on Windows it separates components and the name is `.gb`.
    let entry = "x.sfc\\.gb";
    let platform_ext = Path::new(entry).extension().map(|e| e.to_string_lossy().to_lowercase());
    let got = choose_content(&names(&[entry]), &exts(&["gb"]), false);
    if platform_ext.as_deref() == Some("gb") {
        assert_eq!(got, Ok(Content::Extract(entry.into())));
    } else {
        assert_eq!(got, Err(ChooseError::NothingPlayable(exts(&["gb"]))));
    }
    let name = extraction_name(entry).unwrap();
    let platform_name = Path::new(entry).file_name().unwrap().to_string_lossy().into_owned();
    assert_eq!(name, platform_name);
}

#[test]
fn zip_is_recognised_in_any_case() {
    assert!(is_zip_extension(&Some("ZiP".to_string())));
    assert!(!is_zip_extension(&Some("7z".to_string())));
    assert!(!is_zip_extension(&None));
    assert!(core_reads_zip(&exts(&["gen", "zip"])));
    assert!(!core_reads_zip(&exts(&["gen", "md"])));
}

#[test]
fn extraction_uses_only_the_file_name() {
    assert_eq!(extraction_name("../../escaped.gen"), Some("escaped.gen".to_string()));
    let odd = extraction_name("roms\\..\\x.nes").unwrap();
    assert!(!odd.contains('/') && odd.ends_with("x.nes"));
    assert_eq!(extraction_name("roms/"), Some("roms".to_string()));
    assert_eq!(extraction_name(".."), None);
}
