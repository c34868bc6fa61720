use rustromm::browse::{
    bios_notice, confirm_choice, page_label, missing_notice, ConfirmChoice, DownloadState, Library, NavEffect,
};
use rustromm::input::NavAction;

fn library(page_len: usize) -> Library {
    let mut l = Library::new();
    l.platforms = vec![4, 9, 2];
    l.page_loaded(page_len, 250, 0);
    l
}

#[test]
fn nothing_is_highlighted_until_you_press_a_key() {
    let l = library(5);
    assert_eq!(l.selected, None);
}

#[test]
fn arrow_down_highlights_the_first_game_then_walks_the_list() {
    let mut l = library(5);
    assert_eq!(l.apply(NavAction::Down, true), NavEffect::Nothing);
    assert_eq!(l.selected, Some(0));
    l.apply(NavAction::Down, true);
    l.apply(NavAction::Down, true);
    assert_eq!(l.selected, Some(2));
}

#[test]
fn the_highlight_stops_at_the_end_rather_than_wrapping() {
    let mut l = library(3);
    for _ in 0..10 {
        l.apply(NavAction::Down, true);
    }
    assert_eq!(l.selected, Some(2));
    for _ in 0..10 {
        l.apply(NavAction::Up, true);
    }
    assert_eq!(l.selected, Some(0));
}

#[test]
fn arrow_up_from_nothing_selects_the_last_game() {
    let mut l = library(7);
    l.apply(NavAction::Up, true);
    assert_eq!(l.selected, Some(6));
}

#[test]
fn an_empty_page_never_holds_a_highlight() {
    let mut l = library(0);
    l.apply(NavAction::Down, true);
    assert_eq!(l.selected, None);
    assert_eq!(l.apply(NavAction::Confirm, true), NavEffect::Nothing);
}

#[test]
fn escape_clears_the_search_first_then_the_highlight() {
    let mut l = library(4);
    l.apply(NavAction::Down, true);
    assert_eq!(l.apply(NavAction::Back, false), NavEffect::ClearSearch);
    assert_eq!(l.selected, Some(0));
    assert_eq!(l.apply(NavAction::Back, true), NavEffect::Nothing);
    assert_eq!(l.selected, None);
}

#[test]
fn confirm_without_a_highlight_does_nothing() {
    let mut l = library(4);
    assert_eq!(l.apply(NavAction::Confirm, true), NavEffect::Nothing);
}

#[test]
fn confirm_after_moving_names_the_row() {
    let mut l = library(4);
    l.apply(NavAction::Down, true);
    l.apply(NavAction::Down, true);
    assert_eq!(l.apply(NavAction::Confirm, true), NavEffect::Confirm(1));
}

#[test]
fn paging_stays_inside_the_library() {
    let mut l = library(100);
    assert_eq!(l.apply(NavAction::PagePrev, true), NavEffect::Nothing);
    assert_eq!(l.apply(NavAction::PageNext, true), NavEffect::Fetch(100));
    l.page_loaded(100, 250, 100);
    assert_eq!(l.apply(NavAction::PageNext, true), NavEffect::Fetch(200));
    l.page_loaded(50, 250, 200);
    assert_eq!(l.apply(NavAction::PageNext, true), NavEffect::Nothing);
    assert_eq!(l.apply(NavAction::PagePrev, true), NavEffect::Fetch(100));
    l.page_loaded(50, 250, 30);
    assert_eq!(l.apply(NavAction::PagePrev, true), NavEffect::Fetch(0));
}

#[test]
fn shoulder_buttons_step_through_the_sidebar_and_stop_at_its_ends() {
    let mut l = library(10);
    assert_eq!(l.apply(NavAction::PlatformPrev, true), NavEffect::Nothing);
    assert_eq!(l.selected_platform, None);
    assert_eq!(l.apply(NavAction::PlatformNext, true), NavEffect::Fetch(0));
    assert_eq!(l.selected_platform, Some(4));
    l.apply(NavAction::PlatformNext, true);
    l.apply(NavAction::PlatformNext, true);
    assert_eq!(l.selected_platform, Some(2));
    assert_eq!(l.apply(NavAction::PlatformNext, true), NavEffect::Nothing);
    assert_eq!(l.apply(NavAction::PlatformPrev, true), NavEffect::Fetch(0));
    assert_eq!(l.selected_platform, Some(9));
}

#[test]
fn an_unlisted_platform_counts_as_the_top_of_the_sidebar() {
    let mut l = library(10);
    l.selected_platform = Some(77);
    assert!(l.cycle_platform(1));
    assert_eq!(l.selected_platform, Some(4));
}

#[test]
fn coming_back_to_a_platform_restores_the_highlight() {
    let mut l = library(10);
    assert!(l.select_platform(Some(9)));
    l.page_loaded(10, 10, 0);
    for _ in 0..6 {
        l.apply(NavAction::Down, true);
    }
    assert_eq!(l.selected, Some(5));
    assert!(l.select_platform(Some(4)));
    l.page_loaded(3, 3, 0);
    assert_eq!(l.selected, None);
    assert!(!l.select_platform(Some(4)));
    assert!(l.select_platform(Some(9)));
    l.page_loaded(10, 10, 0);
    assert_eq!(l.selected, Some(5));
    // A shorter page clamps the remembered row.
    l.page_loaded(3, 3, 0);
    assert_eq!(l.selected, Some(2));
}

#[test]
fn confirm_on_a_missing_game_explains_itself_instead_of_failing_silently() {
    assert_eq!(confirm_choice(DownloadState::NotStarted, true), ConfirmChoice::ReportMissing);
    assert_eq!(missing_notice("Tetris"), "Tetris is missing on the server");
}

#[test]
fn confirm_plays_a_downloaded_game_and_ignores_one_in_flight() {
    assert_eq!(confirm_choice(DownloadState::Finished, true), ConfirmChoice::Play);
    assert_eq!(confirm_choice(DownloadState::InProgress, false), ConfirmChoice::Ignore);
    assert_eq!(confirm_choice(DownloadState::Failed, false), ConfirmChoice::Download);
    assert_eq!(confirm_choice(DownloadState::NotStarted, false), ConfirmChoice::Download);
}

#[test]
fn the_page_label_appears_only_for_a_library_of_several_pages() {
    assert_eq!(page_label(0, 100), None);
    assert_eq!(page_label(0, 101), Some("Page 1 of 2".to_string()));
    assert_eq!(page_label(200, 250), Some("Page 3 of 3".to_string()));
    assert_eq!(page_label(100, 5736), Some("Page 2 of 58".to_string()));
}

#[test]
fn a_missing_bios_is_named_with_where_it_goes() {
    assert_eq!(
        bios_notice("Atari Lynx", &["lynxboot.img"], "/home/me/.local/share/rustromm/system"),
        "Atari Lynx needs lynxboot.img in /home/me/.local/share/rustromm/system before it can run. Put the file there and try again."
    );
    assert_eq!(
        bios_notice("X", &["a.rom", "b.rom"], "/s"),
        "X needs a.rom and b.rom in /s before it can run. Put the file there and try again."
    );
}
