use rustromm::api::{
    address_candidate_of, content_url, content_url_with, cover_url, credential_verdict,
    download_refusal, endpoint, heartbeat_verdict, normalise_base_url, roms_query,
    server_version, settle_address, should_report_progress, AddressError, ConnectError,
    Heartbeat, HttpStatus, PAGE_SIZE,
};
use rustromm::models::Rom;

fn status(code: u16, text: &str) -> HttpStatus {
    HttpStatus { code, text: text.to_string() }
}

fn pairs(list: &[(&str, &str)]) -> Vec<(String, String)> {
    list.iter().map(|(a, b)| (a.to_string(), b.to_string())).collect()
}

#[test]
fn bare_host_port_gets_http() {
    assert_eq!(
        normalise_base_url("192.168.1.5:8087").unwrap(),
        "http://192.168.1.5:8087"
    );
}

#[test]
fn explicit_https_is_preserved() {
    assert_eq!(
        normalise_base_url("https://romm.example.com/").unwrap(),
        "https://romm.example.com"
    );
}

#[test]
fn trailing_slashes_go() {
    assert_eq!(
        normalise_base_url("http://romm.box///").unwrap(),
        "http://romm.box"
    );
}

#[test]
fn empty_is_rejected() {
    assert!(normalise_base_url("   ").is_err());
    assert_eq!(normalise_base_url(" / "), Err(AddressError::Empty));
    assert_eq!(AddressError::Empty.message(), "server address is empty");
}

#[test]
fn an_address_the_url_parser_refuses_names_what_was_typed() {
    let err = normalise_base_url("romm box:99999").unwrap_err();
    assert_eq!(err, AddressError::Invalid("romm box:99999".to_string()));
    assert_eq!(err.message(), "'romm box:99999' is not a valid server address");
}

#[test]
fn the_candidate_and_the_verdict_are_separate_steps() {
    assert_eq!(address_candidate_of("  romm.local/ "), Some("http://romm.local".to_string()));
    assert_eq!(address_candidate_of("\t"), None);
    assert_eq!(
        settle_address("x", Some("http://x".to_string()), true),
        Ok("http://x".to_string())
    );
    assert_eq!(
        settle_address("x", Some("http://x".to_string()), false),
        Err(AddressError::Invalid("x".to_string()))
    );
    assert_eq!(settle_address("", None, true), Err(AddressError::Empty));
}

#[test]
fn roms_sends_pagination_and_ordering() {
    assert_eq!(
        roms_query(None, "", 200),
        pairs(&[("limit", "100"), ("offset", "200"), ("order_by", "name"), ("order_dir", "asc")])
    );
    assert_eq!(PAGE_SIZE, 100);
}

#[test]
fn platform_filter_and_search_are_passed_through() {
    assert_eq!(
        roms_query(Some(12), "  zelda ", 0),
        pairs(&[
            ("limit", "100"),
            ("offset", "0"),
            ("order_by", "name"),
            ("order_dir", "asc"),
            ("platform_ids", "12"),
            ("search_term", "zelda"),
        ])
    );
}

#[test]
fn blank_search_is_omitted_entirely() {
    let q = roms_query(Some(-3), "   ", 0);
    assert!(q.iter().all(|(k, _)| k != "search_term"));
    assert_eq!(q[4], ("platform_ids".to_string(), "-3".to_string()));
}

#[test]
fn file_names_with_spaces_and_brackets_are_url_encoded() {
    assert_eq!(
        content_url("http://romm", 42, "Zelda II - The Adventure of Link (USA) [!].nes"),
        "http://romm/api/roms/42/content/Zelda%20II%20-%20The%20Adventure%20of%20Link%20%28USA%29%20%5B%21%5D.nes"
    );
    assert_eq!(
        content_url("http://romm", 42, "Tetris (World) [!].gb"),
        "http://romm/api/roms/42/content/Tetris%20%28World%29%20%5B%21%5D.gb"
    );
    assert_eq!(
        content_url("http://romm", 1, "Pokémon-Red_v1.1~.gb"),
        "http://romm/api/roms/1/content/Pok%C3%A9mon-Red_v1.1~.gb"
    );
    assert_eq!(
        content_url_with("http://romm", 5, "a%20b"),
        "http://romm/api/roms/5/content/a%20b"
    );
}

#[test]
fn cover_paths_are_joined_with_one_slash() {
    assert_eq!(cover_url("http://romm", "/assets/c.png"), "http://romm/assets/c.png");
    assert_eq!(cover_url("http://romm", "assets/c.png"), "http://romm/assets/c.png");
    assert_eq!(cover_url("http://romm", "//x"), "http://romm/x");
    assert_eq!(endpoint("http://romm", "/api/heartbeat"), "http://romm/api/heartbeat");
}

fn rom(missing: bool) -> Rom {
    Rom {
        id: 1,
        name: None,
        fs_name: "a.gb".into(),
        fs_extension: "gb".into(),
        fs_size_bytes: 1,
        platform_id: 1,
        platform_slug: "gb".into(),
        platform_display_name: "Game Boy".into(),
        summary: None,
        path_cover_small: None,
        path_cover_large: None,
        has_multiple_files: false,
        files: Vec::new(),
        missing_from_fs: missing,
    }
}

#[test]
fn download_of_a_file_missing_on_the_server_fails_before_any_request() {
    assert_eq!(
        download_refusal(&rom(true)),
        Some("RomM has this game indexed but the file is missing from the server's disk")
    );
    assert_eq!(download_refusal(&rom(false)), None);
}

#[test]
fn progress_is_reported_every_half_megabyte_and_at_the_end() {
    assert!(!should_report_progress(131_072, 0, Some(10_000_000)));
    assert!(should_report_progress(524_288, 0, Some(10_000_000)));
    assert!(should_report_progress(700, 0, Some(700)));
    assert!(!should_report_progress(700, 0, None));
}

#[test]
fn check_connection_reports_server_version() {
    let nested = Heartbeat {
        system_version: Some("4.0.1".into()),
        version: Some("flat".into()),
        version_lower: None,
    };
    assert_eq!(server_version(&nested), "4.0.1");
    let flat = Heartbeat { system_version: None, version: None, version_lower: Some("3.9".into()) };
    assert_eq!(server_version(&flat), "3.9");
    let none = Heartbeat { system_version: None, version: None, version_lower: None };
    assert_eq!(server_version(&none), "unknown");
}

#[test]
fn a_non_romm_server_is_reported_as_such() {
    let err = heartbeat_verdict("http://box", &status(404, "404 Not Found")).unwrap_err();
    assert_eq!(
        err.message(),
        "http://box answered 404 Not Found for /api/heartbeat — is this a RomM server?"
    );
    assert!(heartbeat_verdict("http://box", &status(200, "200 OK")).is_ok());
}

#[test]
fn wrong_password_is_reported_as_a_credential_problem() {
    for code in [401, 403] {
        let err = credential_verdict(&status(code, "x"), "4.0".into()).unwrap_err();
        assert!(matches!(err, ConnectError::CredentialsRejected));
        assert_eq!(
            err.message(),
            "server reachable, but the username or password was rejected"
        );
    }
    assert_eq!(credential_verdict(&status(204, "204 No Content"), "4.0".into()).unwrap(), "4.0");
    let err = credential_verdict(&status(500, "500 Internal Server Error"), "4.0".into()).unwrap_err();
    assert_eq!(
        err.message(),
        "unexpected response 500 Internal Server Error from /api/platforms"
    );
}
