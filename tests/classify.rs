use escape_artist::action::{CsiAction, EraseInDisplay, EraseInLine, EscAction, OscAction, ParsedAction, SgrAction};
use escape_artist::color::{hex_color, ColorSpec};
use escape_artist::event::{Icon, VteEventDto};
use escape_artist::history::EventLog;
use escape_artist::text::sanitize_raw_bytes;

fn print(log: &mut EventLog, text: &str) -> Vec<VteEventDto> {
    let mut published = Vec::new();
    for c in text.chars() {
        let mut buf = [0u8; 4];
        published.extend(log.process(&ParsedAction::Print(c), c.encode_utf8(&mut buf).as_bytes()));
    }
    published
}

fn control(log: &mut EventLog, code: u8, name: &str) -> Vec<VteEventDto> {
    log.process(&ParsedAction::Control { code, name: name.to_string() }, &[code])
}

fn csi(log: &mut EventLog, csi: CsiAction, raw: &[u8]) -> Vec<VteEventDto> {
    log.process(&ParsedAction::Csi(csi), raw)
}

fn print_text(e: &VteEventDto) -> Option<(&str, Option<&str>, Option<&str>)> {
    match e {
        VteEventDto::Print { string, color, bg_color } => {
            Some((string.as_str(), color.as_deref(), bg_color.as_deref()))
        }
        _ => None,
    }
}

fn is_print(e: &VteEventDto) -> bool {
    matches!(e, VteEventDto::Print { .. })
}

fn is_line_break(e: &VteEventDto) -> bool {
    matches!(e, VteEventDto::LineBreak { .. })
}

fn is_invisible(e: &VteEventDto) -> bool {
    matches!(e, VteEventDto::InvisibleLineBreak)
}

#[test]
fn abc_is_one_print() {
    let mut log = EventLog::new();
    print(&mut log, "abc");
    let h = log.history();
    assert_eq!(h.len(), 1);
    assert_eq!(print_text(&h[0]), Some(("abc", None, None)));
    assert_eq!(log.sequence_count(), 1);
}

#[test]
fn merged_print_publishes_the_new_character_alone() {
    let mut log = EventLog::new();
    let first = print(&mut log, "a");
    assert_eq!(first.len(), 1);
    let second = log.process(&ParsedAction::Print('b'), b"b");
    assert_eq!(second.len(), 1);
    assert_eq!(print_text(&second[0]), Some(("b", None, None)));
    assert_eq!(print_text(&log.history()[0]), Some(("ab", None, None)));
}

#[test]
fn red_text_then_reset() {
    let mut log = EventLog::new();
    let red = ColorSpec::PaletteIndex(1);
    csi(
        &mut log,
        CsiAction::Sgr(SgrAction::Foreground { color: red, debug: "PaletteIndex(1)".to_string() }),
        b"\x1b[31m",
    );
    print(&mut log, "red");
    csi(&mut log, CsiAction::Sgr(SgrAction::Reset), b"\x1b[0m");
    print(&mut log, "X");
    let h = log.history();
    assert_eq!(h.len(), 4);
    match &h[0] {
        VteEventDto::ColorEscape { title, color, raw_bytes, tooltip, .. } => {
            assert_eq!(title.as_deref(), Some("FG"));
            assert_eq!(color, "#cd0000");
            assert_eq!(raw_bytes, "\\x1b[31m");
            assert_eq!(tooltip.as_deref(), Some("Set foreground color to: PaletteIndex(1)"));
        }
        _ => panic!("expected a colour escape"),
    }
    assert_eq!(print_text(&h[1]), Some(("red", Some("#cd0000"), None)));
    match &h[2] {
        VteEventDto::GenericEscape { title, icon, tooltip, raw_bytes } => {
            assert_eq!(*title, None);
            assert_eq!(*icon, Some(Icon::Reset));
            assert_eq!(tooltip.as_deref(), Some("SGR (Select Graphic Rendition) Reset (reset all styles)"));
            assert_eq!(raw_bytes, "\\x1b[0m");
        }
        _ => panic!("expected a generic escape"),
    }
    assert_eq!(print_text(&h[3]), Some(("X", None, None)));
    assert_eq!(log.sequence_count(), 4);
}

#[test]
fn line_feed_is_bracketed_by_invisible_breaks() {
    let mut log = EventLog::new();
    print(&mut log, "a");
    control(&mut log, 0x0a, "LineFeed");
    print(&mut log, "b");
    let h = log.history();
    assert_eq!(h.len(), 5);
    assert_eq!(print_text(&h[0]), Some(("a", None, None)));
    assert!(is_invisible(&h[1]));
    match &h[2] {
        VteEventDto::LineBreak { title } => assert_eq!(title, "LF"),
        _ => panic!("expected a line break"),
    }
    assert!(is_invisible(&h[3]));
    assert_eq!(print_text(&h[4]), Some(("b", None, None)));
    assert_eq!(log.sequence_count(), 3);
}

#[test]
fn consecutive_line_breaks_share_one_bracket() {
    let mut log = EventLog::new();
    control(&mut log, 0x0d, "CarriageReturn");
    control(&mut log, 0x0a, "LineFeed");
    print(&mut log, "z");
    let h = log.history();
    assert_eq!(h.len(), 5);
    assert!(is_invisible(&h[0]));
    assert!(is_line_break(&h[1]));
    assert!(is_line_break(&h[2]));
    assert!(is_invisible(&h[3]));
    assert!(is_print(&h[4]));
}

#[test]
fn window_title_is_an_osc() {
    let mut log = EventLog::new();
    let osc = OscAction::Other { debug: "SetIconNameAndWindowTitle(\"hello\")".to_string() };
    log.process(&ParsedAction::OperatingSystemCommand(osc), b"\x1b]0;hello\x07");
    let h = log.history();
    assert_eq!(h.len(), 1);
    match &h[0] {
        VteEventDto::GenericEscape { title, tooltip, raw_bytes, .. } => {
            assert_eq!(title.as_deref(), Some("OSC"));
            assert!(tooltip.as_deref().unwrap().contains("hello"));
            assert_eq!(raw_bytes, "\\x1b]0;hello\x07");
        }
        _ => panic!("expected a generic escape"),
    }
}

#[test]
fn erase_display() {
    let mut log = EventLog::new();
    csi(&mut log, CsiAction::EraseInDisplay(EraseInDisplay::EraseDisplay), b"\x1b[2J");
    let h = log.history();
    assert_eq!(h.len(), 1);
    match &h[0] {
        VteEventDto::GenericEscape { title, icon, tooltip, raw_bytes } => {
            assert_eq!(*title, None);
            assert_eq!(*icon, Some(Icon::Eraser));
            assert_eq!(tooltip.as_deref(), Some("Erase display"));
            assert_eq!(raw_bytes, "\\x1b[2J");
        }
        _ => panic!("expected a generic escape"),
    }
}

#[test]
fn erase_in_line_wording() {
    let mut log = EventLog::new();
    csi(&mut log, CsiAction::EraseInLine(EraseInLine::EraseToStartOfLine), b"\x1b[1K");
    match &log.history()[0] {
        VteEventDto::GenericEscape { tooltip, icon, .. } => {
            assert_eq!(tooltip.as_deref(), Some("Erase to start of line"));
            assert_eq!(*icon, Some(Icon::Eraser));
        }
        _ => panic!("expected a generic escape"),
    }
}

#[test]
fn hyperlink_on_and_off() {
    let mut log = EventLog::new();
    let on = OscAction::SetHyperlink(Some("8;:https://x".to_string()));
    log.process(&ParsedAction::OperatingSystemCommand(on), b"\x1b]8;;https://x\x07");
    print(&mut log, "link");
    log.process(&ParsedAction::OperatingSystemCommand(OscAction::SetHyperlink(None)), b"\x1b]8;;\x07");
    let h = log.history();
    assert_eq!(h.len(), 3);
    match &h[0] {
        VteEventDto::GenericEscape { icon, tooltip, .. } => {
            assert_eq!(*icon, Some(Icon::Link));
            let tip = tooltip.as_deref().unwrap();
            assert!(tip.starts_with("Set hyperlink: "));
            assert!(tip.contains("https://x"));
        }
        _ => panic!("expected a generic escape"),
    }
    assert_eq!(print_text(&h[1]), Some(("link", None, None)));
    match &h[2] {
        VteEventDto::GenericEscape { icon, tooltip, .. } => {
            assert_eq!(*icon, Some(Icon::LinkOff));
            assert_eq!(tooltip.as_deref(), Some("Clear hyperlink"));
        }
        _ => panic!("expected a generic escape"),
    }
}

#[test]
fn long_burst_is_one_print() {
    let mut log = EventLog::new();
    let text = "x".repeat(10_001);
    print(&mut log, &text);
    let h = log.history();
    assert_eq!(h.len(), 1);
    assert_eq!(print_text(&h[0]).unwrap().0.chars().count(), 10_001);
    assert_eq!(log.sequence_count(), 1);
}

#[test]
fn print_string_joins_previous_print() {
    let mut log = EventLog::new();
    print(&mut log, "ab");
    log.process(&ParsedAction::PrintString("cd".to_string()), b"cd");
    print(&mut log, "e");
    let h = log.history();
    assert_eq!(h.len(), 1);
    assert_eq!(print_text(&h[0]), Some(("abcde", None, None)));
    assert_eq!(log.sequence_count(), 1);
}

#[test]
fn history_invariants_on_mixed_input() {
    let mut log = EventLog::new();
    print(&mut log, "ab");
    control(&mut log, 0x0d, "CarriageReturn");
    control(&mut log, 0x0a, "LineFeed");
    control(&mut log, 0x07, "Bell");
    print(&mut log, "c");
    log.process(&ParsedAction::PrintString("de".to_string()), b"de");
    control(&mut log, 0x0a, "LineFeed");
    log.process(&ParsedAction::Esc(EscAction::DecSaveCursorPosition), b"\x1b7");
    print(&mut log, "f");
    let h = log.history();
    for w in h.windows(2) {
        assert!(!(is_print(&w[0]) && is_print(&w[1])));
        if !is_invisible(&w[0]) && !is_invisible(&w[1]) {
            assert_eq!(is_line_break(&w[0]), is_line_break(&w[1]));
        }
    }
    for (i, e) in h.iter().enumerate() {
        if is_invisible(e) {
            assert!(i + 1 < h.len());
            if i > 0 {
                assert_ne!(is_line_break(&h[i - 1]), is_line_break(&h[i + 1]));
            } else {
                assert!(is_line_break(&h[1]));
            }
        }
    }
    let visible = h.iter().filter(|e| !is_invisible(e)).count();
    assert_eq!(log.sequence_count(), visible);
}

#[test]
fn reset_clears_colours_until_next_change() {
    let mut log = EventLog::new();
    csi(
        &mut log,
        CsiAction::Sgr(SgrAction::Foreground { color: ColorSpec::TrueColor(1, 2, 3), debug: "x".to_string() }),
        b"\x1b[38;2;1;2;3m",
    );
    csi(
        &mut log,
        CsiAction::Sgr(SgrAction::Background { color: ColorSpec::PaletteIndex(4), debug: "y".to_string() }),
        b"\x1b[44m",
    );
    print(&mut log, "p");
    assert_eq!(print_text(&log.history()[2]), Some(("p", Some("#010203"), Some("#0000ee"))));
    csi(&mut log, CsiAction::Sgr(SgrAction::Reset), b"\x1b[0m");
    print(&mut log, "q");
    control(&mut log, 0x0a, "LineFeed");
    csi(&mut log, CsiAction::Sgr(SgrAction::Other { debug: "Intensity(Bold)".to_string() }), b"\x1b[1m");
    print(&mut log, "r");
    let h = log.history();
    for e in &h[4..] {
        if let Some((_, fg, bg)) = print_text(e) {
            assert_eq!(fg, None);
            assert_eq!(bg, None);
        }
    }
    match &h[h.len() - 2] {
        VteEventDto::GenericEscape { title, tooltip, .. } => {
            assert_eq!(title.as_deref(), Some("SGR"));
            assert_eq!(tooltip.as_deref(), Some("Set Intensity(Bold)"));
        }
        _ => panic!("expected a generic escape"),
    }
}

#[test]
fn default_colour_change_shows_black() {
    let mut log = EventLog::new();
    csi(
        &mut log,
        CsiAction::Sgr(SgrAction::Background { color: ColorSpec::Default, debug: "Default".to_string() }),
        b"\x1b[49m",
    );
    match &log.history()[0] {
        VteEventDto::ColorEscape { title, color, tooltip, .. } => {
            assert_eq!(title.as_deref(), Some("BG"));
            assert_eq!(color, "black");
            assert_eq!(tooltip.as_deref(), Some("Set background color to: Default"));
        }
        _ => panic!("expected a colour escape"),
    }
}

#[test]
fn control_codes() {
    let mut log = EventLog::new();
    control(&mut log, 0x07, "Bell");
    control(&mut log, 0x08, "Backspace");
    control(&mut log, 0x09, "HorizontalTab");
    control(&mut log, 0x0e, "ShiftOut");
    let h = log.history();
    let expect = [
        (None, Some(Icon::Bell), Some("Bell"), "0x07"),
        (None, Some(Icon::Backspace), Some("Backspace"), "0x08"),
        (None, Some(Icon::Tab), Some("Tab"), "0x09"),
        (Some("ShiftOut"), None, None, "0x0e"),
    ];
    assert_eq!(h.len(), 4);
    for (e, (t, i, tip, raw)) in h.iter().zip(expect.iter()) {
        match e {
            VteEventDto::GenericEscape { title, icon, tooltip, raw_bytes } => {
                assert_eq!(title.as_deref(), *t);
                assert_eq!(icon, i);
                assert_eq!(tooltip.as_deref(), *tip);
                assert_eq!(raw_bytes, raw);
            }
            _ => panic!("expected a generic escape"),
        }
    }
}

#[test]
fn escape_sequences() {
    let cases = [
        (EscAction::Unspecified, None, Some(Icon::QuestionMark), "Unspecified escape sequence"),
        (EscAction::StringTerminator, Some("\\"), None, "ST / String Terminator"),
        (EscAction::DecRestoreCursorPosition, None, Some(Icon::Restore), "Restore cursor position"),
        (EscAction::AsciiCharacterSet { debug: "AsciiCharacterSetG0".to_string() }, None, Some(Icon::Alphabet), "AsciiCharacterSetG0"),
        (EscAction::Other { debug: "ReverseIndex".to_string() }, Some("ESC"), None, "ReverseIndex"),
    ];
    for (esc, t, i, tip) in cases {
        let mut log = EventLog::new();
        log.process(&ParsedAction::Esc(esc), b"\x1bM");
        match &log.history()[0] {
            VteEventDto::GenericEscape { title, icon, tooltip, raw_bytes } => {
                assert_eq!(title.as_deref(), t);
                assert_eq!(*icon, i);
                assert_eq!(tooltip.as_deref(), Some(tip));
                assert_eq!(raw_bytes, "\\x1bM");
            }
            _ => panic!("expected a generic escape"),
        }
    }
}

#[test]
fn other_actions() {
    let mut log = EventLog::new();
    log.process(&ParsedAction::XtGetTcap(vec!["colors".to_string(), "TN".to_string()]), b"\x1bP+q\x1b\\");
    log.process(&ParsedAction::Sixel, b"\x1bPq\x1b\\");
    log.process(&ParsedAction::KittyImage, b"\x1b_G\x1b\\");
    log.process(&ParsedAction::DeviceControl { debug: "Enter".to_string() }, b"\x1bP");
    csi(&mut log, CsiAction::Cursor { debug: "Up(1)".to_string() }, b"\x1b[A");
    csi(&mut log, CsiAction::Edit { debug: "DeleteCharacter(1)".to_string() }, b"\x1b[P");
    csi(&mut log, CsiAction::Other { debug: "Mode(x)".to_string() }, b"\x1b[?25h");
    let expect = [
        (Some("XTGETTCAP"), None, Some("Get termcap, terminfo for: colors, TN")),
        (Some("Sixel"), Some(Icon::Image), Some("Sixel image")),
        (Some("Kitty"), Some(Icon::Image), Some("Kitty image")),
        (Some("DCM"), None, Some("Enter")),
        (None, Some(Icon::Cursor), Some("Update cursor: Up(1)")),
        (Some("Edit"), None, Some("DeleteCharacter(1)")),
        (Some("CSI"), None, Some("Mode(x)")),
    ];
    let h = log.history();
    assert_eq!(h.len(), expect.len());
    for (e, (t, i, tip)) in h.iter().zip(expect.iter()) {
        match e {
            VteEventDto::GenericEscape { title, icon, tooltip, .. } => {
                assert_eq!(title.as_deref(), *t);
                assert_eq!(icon, i);
                assert_eq!(tooltip.as_deref(), *tip);
            }
            _ => panic!("expected a generic escape"),
        }
    }
    assert_eq!(log.sequence_count(), 7);
}

#[test]
fn sanitize_replaces_escape_only() {
    assert_eq!(sanitize_raw_bytes(b"\x1b[2J"), "\\x1b[2J");
    assert_eq!(sanitize_raw_bytes(b"a\x07b"), "a\x07b");
    assert_eq!(sanitize_raw_bytes(b""), "");
    assert_eq!(sanitize_raw_bytes(b"\xff\x1b"), "\u{fffd}\\x1b");
}

#[test]
fn hex_colours() {
    assert_eq!(hex_color(&ColorSpec::Default), None);
    assert_eq!(hex_color(&ColorSpec::TrueColor(255, 0, 16)).as_deref(), Some("#ff0010"));
    assert_eq!(hex_color(&ColorSpec::PaletteIndex(1)).as_deref(), Some("#cd0000"));
    assert_eq!(hex_color(&ColorSpec::PaletteIndex(16)).as_deref(), Some("#000000"));
    assert_eq!(hex_color(&ColorSpec::PaletteIndex(15)).as_deref(), Some("#ffffff"));
    assert_eq!(hex_color(&ColorSpec::PaletteIndex(12)).as_deref(), Some("#5c5cff"));
    assert_eq!(hex_color(&ColorSpec::PaletteIndex(17)).as_deref(), Some("#00005f"));
    assert_eq!(hex_color(&ColorSpec::PaletteIndex(196)).as_deref(), Some("#ff0000"));
    assert_eq!(hex_color(&ColorSpec::PaletteIndex(231)).as_deref(), Some("#ffffff"));
    assert_eq!(hex_color(&ColorSpec::PaletteIndex(232)).as_deref(), Some("#080808"));
    assert_eq!(hex_color(&ColorSpec::PaletteIndex(255)).as_deref(), Some("#eeeeee"));
}

#[test]
fn history_stands_for_each_action() {
    let mut log = EventLog::new();
    print(&mut log, "hi");
    control(&mut log, 0x0d, "CarriageReturn");
    control(&mut log, 0x0a, "LineFeed");
    control(&mut log, 0x1b, "Escape");
    log.process(&ParsedAction::PrintString("yo".to_string()), b"yo");
    csi(&mut log, CsiAction::EraseInLine(EraseInLine::EraseLine), b"\x1b[2K");
    let mut units: Vec<String> = Vec::new();
    for e in log.history() {
        match e {
            VteEventDto::Print { string, .. } => units.extend(string.chars().map(|c| c.to_string())),
            VteEventDto::InvisibleLineBreak => {}
            VteEventDto::LineBreak { title } => units.push(title.clone()),
            VteEventDto::GenericEscape { raw_bytes, .. } | VteEventDto::ColorEscape { raw_bytes, .. } => {
                units.push(raw_bytes.clone())
            }
        }
    }
    assert_eq!(units, vec!["h", "i", "CR", "LF", "0x1b", "y", "o", "\\x1b[2K"]);
}

#[test]
fn lone_line_break_starts_with_marker() {
    let mut log = EventLog::new();
    let published = control(&mut log, 0x0a, "LineFeed");
    assert_eq!(published.len(), 2);
    assert!(is_invisible(&published[0]));
    assert!(is_line_break(&log.history()[1]));
}
