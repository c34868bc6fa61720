use rustromm::config::Config;

fn with_default_emulator() -> Config {
    Config {
        default_emulator: "retroarch".into(),
        ..Config::default()
    }
}

#[test]
fn platform_emulator_beats_default() {
    let mut c = with_default_emulator();
    c.set_emulator("psp", "ppsspp");
    assert_eq!(c.emulator_for("psp"), Some("ppsspp"));
    assert_eq!(c.emulator_for("snes"), Some("retroarch"));
}

#[test]
fn blank_entries_fall_through_to_default() {
    let mut c = with_default_emulator();
    c.set_emulator("snes", "   ");
    assert_eq!(c.emulator_for("snes"), Some("retroarch"));
}

#[test]
fn no_emulator_configured_at_all() {
    assert_eq!(Config::default().emulator_for("snes"), None);
}

#[test]
fn setting_an_emulator_twice_keeps_the_latest() {
    let mut c = Config::default();
    c.set_emulator("psp", "ppsspp");
    c.set_emulator("n64", "mupen64plus");
    c.set_emulator("psp", "ppsspp-sdl");
    assert_eq!(c.emulator_for("psp"), Some("ppsspp-sdl"));
    assert_eq!(c.emulator_for("n64"), Some("mupen64plus"));
    assert_eq!(c.emulators.len(), 2);
}

#[test]
fn the_password_is_saved_only_when_asked() {
    let mut c = Config {
        server_url: "http://romm".into(),
        username: "me".into(),
        password: "letmein".into(),
        ..Config::default()
    };
    assert_eq!(c.for_saving().password, "");
    assert_eq!(c.for_saving().username, "me");
    c.remember_password = true;
    assert_eq!(c.for_saving().password, "letmein");
}

#[test]
fn saved_credentials_allow_connecting_straight_away() {
    let mut c = Config::default();
    assert!(!c.can_auto_connect());
    c.server_url = "http://romm".into();
    c.username = "me".into();
    assert!(!c.can_auto_connect());
    c.password = "pw".into();
    assert!(c.can_auto_connect());
}

#[test]
fn a_blank_download_dir_means_the_default() {
    let mut c = Config::default();
    assert_eq!(c.configured_download_dir(), None);
    c.download_dir = "  ".into();
    assert_eq!(c.configured_download_dir(), None);
    c.download_dir = "/games".into();
    assert_eq!(c.configured_download_dir(), Some("/games".to_string()));
}

#[test]
fn setting_an_emulator_touches_nothing_else() {
    let mut c = Config {
        server_url: "http://romm.local".into(),
        username: "me".into(),
        password: "secret".into(),
        remember_password: true,
        download_dir: "/games".into(),
        ..with_default_emulator()
    };
    c.set_emulator("snes", "snes9x");
    assert_eq!(c.server_url, "http://romm.local");
    assert_eq!(c.username, "me");
    assert_eq!(c.password, "secret");
    assert!(c.remember_password);
    assert_eq!(c.download_dir, "/games");
    assert_eq!(c.default_emulator, "retroarch");
    assert_eq!(c.emulator_for("snes"), Some("snes9x"));
}

#[test]
fn setting_a_platform_twice_keeps_one_entry() {
    let mut c = with_default_emulator();
    c.set_emulator("snes", "snes9x");
    c.set_emulator("gba", "mgba");
    c.set_emulator("snes", "bsnes");
    assert_eq!(c.emulators.len(), 2);
    assert_eq!(c.emulator_for("snes"), Some("bsnes"));
    assert_eq!(c.emulator_for("gba"), Some("mgba"));
}
