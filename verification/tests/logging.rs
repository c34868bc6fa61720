use rustromm::libretro::host::Diagnostics;
use rustromm::logging::{
    clear, emulation_context, entries, error, info, log, report, warn, Level, LogBuffer,
    ReportHeader, CAPACITY,
};

fn header() -> ReportHeader {
    ReportHeader {
        version: "0.2.0".into(),
        os: "linux".into(),
        arch: "x86_64".into(),
        gamepad: true,
        config_path: Some("/home/me/.config/rustromm/config.json".into()),
    }
}

#[test]
fn entries_are_recorded_and_ordered() {
    let mut buf = LogBuffer::new();
    info(&mut buf, 1, "first".into());
    warn(&mut buf, 2, "second".into());
    error(&mut buf, 3, "third".into());
    let got = entries(&buf);
    let messages: Vec<_> = got.iter().map(|e| e.message.as_str()).collect();
    assert_eq!(messages, vec!["first", "second", "third"]);
    assert_eq!(got[1].level, Level::Warn);
    assert_eq!(Level::Error.tag(), "ERR ");
}

#[test]
fn the_report_carries_a_header() {
    let mut buf = LogBuffer::new();
    info(&mut buf, 150, "hello".into());
    let text = report(&header(), &Diagnostics::new(), &buf);
    assert!(text.contains("=== RUSTROMM LOG ==="));
    assert!(text.contains("platform"));
    assert!(text.contains("hello"));
    assert_eq!(
        text,
        "=== RUSTROMM LOG ===\n\
         version   0.2.0\n\
         platform  linux x86_64\n\
         gamepad   feature enabled\n\
         config    /home/me/.config/rustromm/config.json\n\
         \n    1.50s INFO hello\n"
    );
}

#[test]
fn a_report_from_a_browsing_session_carries_no_emulation_section() {
    let mut buf = LogBuffer::new();
    info(&mut buf, 0, "connected".into());
    let text = report(&header(), &Diagnostics::new(), &buf);
    assert!(!text.contains("--- emulation ---"), "got: {text}");
    assert_eq!(emulation_context(&Diagnostics::new()), None);
}

#[test]
fn a_report_after_playing_carries_what_the_core_said() {
    let mut d = Diagnostics::new();
    d.core_log.push("[core ERR ] missing BIOS: lynxboot.img".into());
    d.note_refusal(14);
    let buf = LogBuffer::new();
    let text = report(&header(), &d, &buf);
    assert!(text.contains("--- emulation ---"), "got: {text}");
    assert!(text.contains("refused"), "got: {text}");
    assert!(text.contains("14"), "got: {text}");
    assert!(text.contains("missing BIOS: lynxboot.img"), "got: {text}");
}

#[test]
fn an_empty_log_still_produces_a_usable_report() {
    let buf = LogBuffer::new();
    let mut h = header();
    h.gamepad = false;
    h.config_path = None;
    let text = report(&h, &Diagnostics::new(), &buf);
    assert!(text.contains("(no entries)"));
    assert!(text.contains("version"));
    assert!(text.contains("feature disabled at build time"));
    assert!(!text.contains("config    "));
}

#[test]
fn the_buffer_is_bounded() {
    let mut buf = LogBuffer::new();
    for i in 0..(CAPACITY + 50) {
        info(&mut buf, i as u64, format!("line {i}"));
    }
    assert_eq!(entries(&buf).len(), CAPACITY);
    let last = entries(&buf).last().unwrap().message.clone();
    assert_eq!(last, format!("line {}", CAPACITY + 49));
    assert_eq!(entries(&buf)[0].message, "line 50");
    clear(&mut buf);
    assert!(entries(&buf).is_empty());
}

#[test]
fn the_emulation_section_lists_format_quirks_refusals_and_the_tail_of_the_core_log() {
    let mut d = Diagnostics::new();
    d.pixel_format = Some("RGB565");
    d.serialization_quirks = Some(0x42);
    d.note_refusal(14);
    d.note_refusal(56);
    for i in 0..45 {
        d.core_log.push(format!("line {i}"));
    }
    let text = emulation_context(&d).unwrap();
    let mut expected = String::from(
        "\n--- emulation ---\npixel fmt RGB565\nquirks    0x42\nrefused   14 56\n\n--- what the core said (45) ---\n",
    );
    for i in 5..45 {
        expected.push_str(&format!("line {i}\n"));
    }
    assert_eq!(text, expected);
}

#[test]
fn times_are_printed_with_two_decimals_in_eight_columns() {
    let mut buf = LogBuffer::new();
    log(&mut buf, 0, Level::Info, "a".into());
    log(&mut buf, 123_456_789, Level::Error, "b".into());
    log(&mut buf, 7, Level::Warn, "c".into());
    let text = report(&header(), &Diagnostics::new(), &buf);
    assert!(text.ends_with(
        "    0.00s INFO a\n1234567.89s ERR  b\n    0.07s WARN c\n"
    ), "got: {text}");
    assert_eq!(format!("{:8.2}s", 1234567.89f64), "1234567.89s");
    assert_eq!(format!("{:8.2}s", 0.07f64), "    0.07s");
}
