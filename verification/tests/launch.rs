use rustromm::launch::{detect_emulators, launch_plan, path_program_names, tokenise, LaunchError};

#[test]
fn plain_command() {
    assert_eq!(tokenise("retroarch"), vec!["retroarch"]);
}

#[test]
fn command_with_args() {
    assert_eq!(
        tokenise("retroarch -L /cores/snes9x.so"),
        vec!["retroarch", "-L", "/cores/snes9x.so"]
    );
}

#[test]
fn quoted_path_with_spaces() {
    assert_eq!(
        tokenise(r#""C:\Program Files\RetroArch\retroarch.exe" -f"#),
        vec![r"C:\Program Files\RetroArch\retroarch.exe", "-f"]
    );
}

#[test]
fn single_quotes_too() {
    assert_eq!(
        tokenise("'/Applications/My Emu.app/emu' --run"),
        vec!["/Applications/My Emu.app/emu", "--run"]
    );
}

#[test]
fn collapses_repeated_whitespace() {
    assert_eq!(tokenise("  a   b  "), vec!["a", "b"]);
}

#[test]
fn empty_input_yields_nothing() {
    assert!(tokenise("   ").is_empty());
}

#[test]
fn an_unclosed_quote_runs_to_the_end() {
    assert_eq!(tokenise("emu 'my game"), vec!["emu", "my game"]);
}

#[test]
fn the_rom_placeholder_is_substituted() {
    let (program, args) = launch_plan("retroarch -L core.so {rom} --fullscreen", "/r/g.gb").unwrap();
    assert_eq!(program, "retroarch");
    assert_eq!(args, vec!["-L", "core.so", "/r/g.gb", "--fullscreen"]);
}

#[test]
fn without_a_placeholder_the_rom_is_appended() {
    let (program, args) = launch_plan("mgba-qt -f", "/r/g.gba").unwrap();
    assert_eq!(program, "mgba-qt");
    assert_eq!(args, vec!["-f", "/r/g.gba"]);
}

#[test]
fn a_blank_command_is_refused() {
    assert_eq!(launch_plan("   ", "/r/g.gb"), Err(LaunchError::NoCommand));
    assert_eq!(LaunchError::NoCommand.message(), "no emulator command configured");
}

#[test]
fn emulators_found_on_path_are_listed_once() {
    let installed = vec![("RetroArch".to_string(), "/usr/bin/retroarch".to_string())];
    let names = path_program_names();
    assert!(names.contains(&"retroarch"));
    let on_path = vec![
        ("retroarch".to_string(), Some("/usr/bin/retroarch".to_string())),
        ("ppsspp".to_string(), Some("/usr/local/bin/ppsspp".to_string())),
        ("dolphin-emu".to_string(), None),
    ];
    let found = detect_emulators(installed, on_path);
    assert_eq!(found.len(), 2);
    assert_eq!(found[0].1, "/usr/bin/retroarch");
    assert_eq!(found[1].1, "/usr/local/bin/ppsspp");
}

#[test]
fn an_empty_quoted_argument_is_kept() {
    assert_eq!(tokenise(r#"foo "" bar"#), vec!["foo", "", "bar"]);
}

#[test]
fn unquoted_commands_split_like_split_whitespace() {
    for input in ["retroarch", "retroarch -L /cores/snes9x.so", "  a   b  ", "   ", "x\ty\nz"] {
        let expected: Vec<String> = input.split_whitespace().map(String::from).collect();
        assert_eq!(tokenise(input), expected);
    }
}
