use std::path::Path;

use rustromm::libretro::saves::{decide, is_uniform, save_file_name, sram_path, Decision};

#[test]
fn saves_are_named_after_the_rom() {
    let p = sram_path("/saves", "/roms/Tetris (U) [!].gb");
    assert_eq!(Path::new(&p), Path::new("/saves/Tetris (U) [!].srm"));
    assert_eq!(Path::new(&p).extension().unwrap(), "srm");
}

#[test]
fn a_rom_path_with_no_stem_still_produces_a_path() {
    let p = sram_path("/saves", "/");
    assert!(Path::new(&p).starts_with("/saves"));
    assert_eq!(p, "/saves/game.srm");
    assert_eq!(save_file_name(None), "game.srm");
    assert_eq!(save_file_name(Some("Zelda")), "Zelda.srm");
}

#[test]
fn uniform_memory_is_recognised() {
    assert!(is_uniform(&[0u8; 64]));
    assert!(is_uniform(&[0xFFu8; 64]));
    assert!(is_uniform(&[]));
    assert!(!is_uniform(&[0, 0, 0, 1]));
}

#[test]
fn unchanged_memory_is_not_rewritten() {
    let data = vec![1, 2, 3, 4];
    assert_eq!(decide(Some(&data), Some(&data), None), Decision::Unchanged);
}

#[test]
fn a_core_with_no_save_memory_writes_nothing() {
    assert_eq!(decide(None, None, None), Decision::NoSaveMemory);
    assert_eq!(decide(Some(&[]), None, None), Decision::NoSaveMemory);
}

#[test]
fn a_real_save_is_written() {
    let data = vec![0, 1, 2, 3];
    assert_eq!(decide(Some(&data), None, None), Decision::Write);
    assert_eq!(decide(Some(&data), Some(&[9, 9]), None), Decision::Write);
}

#[test]
fn uninitialised_memory_never_overwrites_a_real_save() {
    let blank = vec![0u8; 8192];
    let ones = vec![0xFFu8; 8192];
    let real = {
        let mut v = vec![0u8; 8192];
        v[100] = 42;
        v
    };
    assert_eq!(decide(Some(&blank), None, Some(&real)), Decision::RefuseUniform);
    assert_eq!(decide(Some(&ones), None, Some(&real)), Decision::RefuseUniform);
}

#[test]
fn uniform_memory_may_replace_uniform_memory() {
    let blank = vec![0u8; 64];
    let ones = vec![0xFFu8; 64];
    assert_eq!(decide(Some(&blank), None, Some(&ones)), Decision::Write);
    assert_eq!(decide(Some(&blank), None, None), Decision::Write);
}

#[test]
fn a_real_save_may_replace_anything() {
    let real = vec![1u8, 2, 3, 4];
    let blank = vec![0u8; 4];
    let other = vec![9u8, 9, 9, 9];
    assert_eq!(decide(Some(&real), None, Some(&blank)), Decision::Write);
    assert_eq!(decide(Some(&real), None, Some(&other)), Decision::Write);
}
