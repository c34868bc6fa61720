use rustromm::models::Platform;
use rustromm::sidebar::sidebar_platforms;

fn platform(id: i64, name: &str, custom: Option<&str>, count: i64) -> Platform {
    Platform {
        id,
        name: name.to_string(),
        slug: name.to_lowercase(),
        fs_slug: name.to_lowercase(),
        rom_count: count,
        custom_name: custom.map(|s| s.to_string()),
    }
}

#[test]
fn empty_platforms_are_left_out_and_the_rest_sorted_without_regard_to_case() {
    let got = sidebar_platforms(vec![
        platform(1, "super nintendo", None, 10),
        platform(2, "Atari 2600", None, 0),
        platform(3, "Game Boy", None, 4),
        platform(4, "arcade", None, 2),
    ]);
    let ids: Vec<i64> = got.iter().map(|p| p.id).collect();
    assert_eq!(ids, vec![4, 3, 1]);
}

#[test]
fn custom_names_decide_the_order() {
    let got = sidebar_platforms(vec![
        platform(1, "Sega Mega Drive", Some("Genesis"), 3),
        platform(2, "Famicom", None, 3),
        platform(3, "Zeebo", Some(" "), 3),
    ]);
    let ids: Vec<i64> = got.iter().map(|p| p.id).collect();
    assert_eq!(ids, vec![2, 1, 3]);
}

#[test]
fn names_that_compare_equal_keep_the_servers_order() {
    let got = sidebar_platforms(vec![
        platform(7, "PSP", None, 1),
        platform(5, "psp", None, 1),
        platform(6, "Psp", None, 1),
        platform(1, "NES", None, 1),
    ]);
    let ids: Vec<i64> = got.iter().map(|p| p.id).collect();
    assert_eq!(ids, vec![1, 7, 5, 6]);
}

#[test]
fn the_order_is_that_of_lower_cased_names() {
    let input = vec![
        platform(1, "Ñintendo", None, 1),
        platform(2, "nintendo", None, 1),
        platform(3, "Nintendo 64", None, 1),
        platform(4, "ÉLAN", None, 1),
        platform(5, "", None, 1),
    ];
    let mut expected: Vec<(String, i64)> =
        input.iter().map(|p| (p.display_name().to_lowercase(), p.id)).collect();
    expected.sort_by(|a, b| a.0.cmp(&b.0));
    let got: Vec<i64> = sidebar_platforms(input).iter().map(|p| p.id).collect();
    assert_eq!(got, expected.into_iter().map(|(_, id)| id).collect::<Vec<_>>());
}
