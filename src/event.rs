//! Display events: how each parsed action is described to a viewer.

use vstd::prelude::*;
use crate::action::{CsiAction, EraseInDisplay, EraseInLine, EscAction, OscAction, ParsedAction, SgrAction};
use crate::color::{color_hex, hex_byte, hex_color, push_hex_byte, ColorSpec};
use crate::text::{opt_view, push_char, sanitize_raw_bytes, sanitized};

verus! {

/// The icon shown beside an event (its iconify identifier in brackets).
#[derive(Clone, Copy, Debug, PartialEq, Eq, Structural)]
pub enum Icon {
    /// A bell (`mdi:bell`).
    Bell,
    /// A backspace key (`mdi:backspace`).
    Backspace,
    /// A tab key (`mdi:keyboard-tab`).
    Tab,
    /// A question mark in a box (`mdi:question-mark-box`).
    QuestionMark,
    /// A floppy disk (`mdi:content-save`).
    Save,
    /// A file being restored (`mdi:file-restore`).
    Restore,
    /// Letters (`mdi:alphabetical-variant`).
    Alphabet,
    /// A reset arrow (`carbon:reset`).
    Reset,
    /// A text cursor (`ph:cursor-text-fill`).
    Cursor,
    /// An eraser (`mdi:eraser`).
    Eraser,
    /// A chain link (`mdi:link`).
    Link,
    /// A broken chain link (`mdi:link-off`).
    LinkOff,
    /// A picture (`mdi:image`).
    Image,
}


/// One entry of the event stream shown to a viewer.
#[derive(Clone, Debug)]
#[allow(inconsistent_fields)]
pub enum VteEventDto {
    /// Printable text, with the colours in effect when it was printed.
    Print { string: String, color: Option<String>, bg_color: Option<String> },
    /// An escape or control that is described, not rendered.
    GenericEscape {
        title: Option<String>,
        icon: Option<Icon>,
        tooltip: Option<String>,
        raw_bytes: String,
    },
    /// A colour change, with the colour it sets.
    ColorEscape {
        title: Option<String>,
        icon: Option<Icon>,
        tooltip: Option<String>,
        color: String,
        raw_bytes: String,
    },
    /// A marker between a run of line breaks and a run of other events.
    InvisibleLineBreak,
    /// A line feed ("LF") or carriage return ("CR").
    LineBreak { title: String },
}

/// The mathematical value of a [`VteEventDto`].
#[allow(inconsistent_fields)]
pub enum EventV {
    Print { string: Seq<char>, color: Option<Seq<char>>, bg_color: Option<Seq<char>> },
    GenericEscape {
        title: Option<Seq<char>>,
        icon: Option<Icon>,
        tooltip: Option<Seq<char>>,
        raw_bytes: Seq<char>,
    },
    ColorEscape {
        title: Option<Seq<char>>,
        icon: Option<Icon>,
        tooltip: Option<Seq<char>>,
        color: Seq<char>,
        raw_bytes: Seq<char>,
    },
    InvisibleLineBreak,
    LineBreak { title: Seq<char> },
}

impl View for VteEventDto {
    type V = EventV;

    open spec fn view(&self) -> EventV {
        match self {
            VteEventDto::Print { string, color, bg_color } => EventV::Print {
                string: string@,
                color: opt_view(*color),
                bg_color: opt_view(*bg_color),
            },
            VteEventDto::GenericEscape { title, icon, tooltip, raw_bytes } => EventV::GenericEscape {
                title: opt_view(*title),
                icon: *icon,
                tooltip: opt_view(*tooltip),
                raw_bytes: raw_bytes@,
            },
            VteEventDto::ColorEscape { title, icon, tooltip, color, raw_bytes } => EventV::ColorEscape {
                title: opt_view(*title),
                icon: *icon,
                tooltip: opt_view(*tooltip),
                color: color@,
                raw_bytes: raw_bytes@,
            },
            VteEventDto::InvisibleLineBreak => EventV::InvisibleLineBreak,
            VteEventDto::LineBreak { title } => EventV::LineBreak { title: title@ },
        }
    }
}

/// A described escape with the given title, icon, tooltip and rendered bytes.
pub open spec fn generic(
    title: Option<Seq<char>>,
    icon: Option<Icon>,
    tooltip: Option<Seq<char>>,
    raw_bytes: Seq<char>,
) -> EventV {
    EventV::GenericEscape { title, icon, tooltip, raw_bytes }
}

/// `0x` and two lower-case hexadecimal digits.
pub open spec fn control_hex(code: u8) -> Seq<char> {
    seq!['0', 'x'] + hex_byte(code)
}

/// The event for a control code with byte value `code` and name `name`.
pub open spec fn control_event(code: u8, name: Seq<char>) -> EventV {
    let raw = control_hex(code);
    if code == 0x07 {
        generic(None, Some(Icon::Bell), Some("Bell"@), raw)
    } else if code == 0x08 {
        generic(None, Some(Icon::Backspace), Some("Backspace"@), raw)
    } else if code == 0x09 {
        generic(None, Some(Icon::Tab), Some("Tab"@), raw)
    } else if code == 0x0a {
        EventV::LineBreak { title: "LF"@ }
    } else if code == 0x0d {
        EventV::LineBreak { title: "CR"@ }
    } else {
        generic(Some(name), None, None, raw)
    }
}

/// The event for an escape sequence whose bytes render as `raw`.
pub open spec fn esc_event(e: EscAction, raw: Seq<char>) -> EventV {
    match e {
        EscAction::Unspecified => generic(
            None,
            Some(Icon::QuestionMark),
            Some("Unspecified escape sequence"@),
            raw,
        ),
        EscAction::StringTerminator => generic(
            Some("\\"@),
            None,
            Some("ST / String Terminator"@),
            raw,
        ),
        EscAction::DecSaveCursorPosition => generic(
            None,
            Some(Icon::Save),
            Some("Save cursor position"@),
            raw,
        ),
        EscAction::DecRestoreCursorPosition => generic(
            None,
            Some(Icon::Restore),
            Some("Restore cursor position"@),
            raw,
        ),
        EscAction::AsciiCharacterSet { debug } => generic(None, Some(Icon::Alphabet), Some(debug@), raw),
        EscAction::Other { debug } => generic(Some("ESC"@), None, Some(debug@), raw),
    }
}

/// The wording of an erase-in-line sequence.
pub open spec fn erase_in_line_text(e: EraseInLine) -> Seq<char> {
    match e {
        EraseInLine::EraseToEndOfLine => "Erase to end of line"@,
        EraseInLine::EraseToStartOfLine => "Erase to start of line"@,
        EraseInLine::EraseLine => "Erase line"@,
    }
}

/// The wording of an erase-in-display sequence.
pub open spec fn erase_in_display_text(e: EraseInDisplay) -> Seq<char> {
    match e {
        EraseInDisplay::EraseToEndOfDisplay => "Erase to end of display"@,
        EraseInDisplay::EraseToStartOfDisplay => "Erase to start of display"@,
        EraseInDisplay::EraseDisplay => "Erase display"@,
        EraseInDisplay::EraseScrollback => "Erase scrollback"@,
    }
}

/// The colour shown for a colour change: its hex rendering, or "black" for
/// the default colour.
pub open spec fn shown_color(c: ColorSpec) -> Seq<char> {
    match color_hex(c) {
        Some(h) => h,
        None => "black"@,
    }
}

/// The event for a control sequence whose bytes render as `raw`.
pub open spec fn csi_event(c: CsiAction, raw: Seq<char>) -> EventV {
    match c {
        CsiAction::Sgr(SgrAction::Reset) => generic(
            None,
            Some(Icon::Reset),
            Some("SGR (Select Graphic Rendition) Reset (reset all styles)"@),
            raw,
        ),
        CsiAction::Sgr(SgrAction::Foreground { color, debug }) => EventV::ColorEscape {
            title: Some("FG"@),
            icon: None,
            tooltip: Some("Set foreground color to: "@ + debug@),
            color: shown_color(color),
            raw_bytes: raw,
        },
        CsiAction::Sgr(SgrAction::Background { color, debug }) => EventV::ColorEscape {
            title: Some("BG"@),
            icon: None,
            tooltip: Some("Set background color to: "@ + debug@),
            color: shown_color(color),
            raw_bytes: raw,
        },
        CsiAction::Sgr(SgrAction::Other { debug }) => generic(Some("SGR"@), None, Some("Set "@ + debug@), raw),
        CsiAction::Cursor { debug } => generic(None, Some(Icon::Cursor), Some("Update cursor: "@ + debug@), raw),
        CsiAction::EraseInLine(e) => generic(None, Some(Icon::Eraser), Some(erase_in_line_text(e)), raw),
        CsiAction::EraseInDisplay(e) => generic(None, Some(Icon::Eraser), Some(erase_in_display_text(e)), raw),
        CsiAction::Edit { debug } => generic(Some("Edit"@), None, Some(debug@), raw),
        CsiAction::Other { debug } => generic(Some("CSI"@), None, Some(debug@), raw),
    }
}

/// The event for an operating system command whose bytes render as `raw`.
pub open spec fn osc_event(o: OscAction, raw: Seq<char>) -> EventV {
    match o {
        OscAction::SetHyperlink(Some(link)) => generic(None, Some(Icon::Link), Some("Set hyperlink: "@ + link@), raw),
        OscAction::SetHyperlink(None) => generic(None, Some(Icon::LinkOff), Some("Clear hyperlink"@), raw),
        OscAction::Other { debug } => generic(Some("OSC"@), None, Some(debug@), raw),
    }
}

/// Names separated by ", ".
pub open spec fn joined(names: Seq<String>) -> Seq<char>
    decreases names.len(),
{
    if names.len() == 0 {
        Seq::empty()
    } else if names.len() == 1 {
        names[0]@
    } else {
        joined(names.drop_last()) + ", "@ + names.last()@
    }
}

/// The event that describes `a`, produced by the bytes `raw`, before any
/// colour is attached.
pub open spec fn describe(a: ParsedAction, raw: Seq<u8>) -> EventV {
    match a {
        ParsedAction::Print(c) => EventV::Print { string: seq![c], color: None, bg_color: None },
        ParsedAction::PrintString(s) => EventV::Print { string: s@, color: None, bg_color: None },
        ParsedAction::Control { code, name } => control_event(code, name@),
        ParsedAction::DeviceControl { debug } => generic(Some("DCM"@), None, Some(debug@), sanitized(raw)),
        ParsedAction::OperatingSystemCommand(o) => osc_event(o, sanitized(raw)),
        ParsedAction::Csi(c) => csi_event(c, sanitized(raw)),
        ParsedAction::Esc(e) => esc_event(e, sanitized(raw)),
        ParsedAction::Sixel => generic(Some("Sixel"@), Some(Icon::Image), Some("Sixel image"@), sanitized(raw)),
        ParsedAction::XtGetTcap(names) => generic(
            Some("XTGETTCAP"@),
            None,
            Some("Get termcap, terminfo for: "@ + joined(names@)),
            sanitized(raw),
        ),
        ParsedAction::KittyImage => generic(Some("Kitty"@), Some(Icon::Image), Some("Kitty image"@), sanitized(raw)),
    }
}

fn text(s: &str) -> (r: String)
    ensures
        r@ == s@,
{
    String::from_str(s)
}

fn some_text(s: &str) -> (r: Option<String>)
    ensures
        opt_view(r) == Some(s@),
{
    Some(String::from_str(s))
}

/// Describes a control code.
pub fn ctrl_to_dto(code: u8, name: &String) -> (r: VteEventDto)
    ensures
        r@ == control_event(code, name@),
{
    proof {
        reveal_strlit("0x");
    }
    let mut raw_bytes = text("0x");
    push_hex_byte(&mut raw_bytes, code);
    assert(raw_bytes@ =~= control_hex(code));
    if code == 0x07 {
        VteEventDto::GenericEscape { title: None, icon: Some(Icon::Bell), tooltip: some_text("Bell"), raw_bytes }
    } else if code == 0x08 {
        VteEventDto::GenericEscape {
            title: None,
            icon: Some(Icon::Backspace),
            tooltip: some_text("Backspace"),
            raw_bytes,
        }
    } else if code == 0x09 {
        VteEventDto::GenericEscape { title: None, icon: Some(Icon::Tab), tooltip: some_text("Tab"), raw_bytes }
    } else if code == 0x0a {
        VteEventDto::LineBreak { title: text("LF") }
    } else if code == 0x0d {
        VteEventDto::LineBreak { title: text("CR") }
    } else {
        VteEventDto::GenericEscape { title: Some(name.clone()), icon: None, tooltip: None, raw_bytes }
    }
}

/// Describes an escape sequence.
pub fn esc_to_dto(esc: &EscAction, raw_bytes: &[u8]) -> (r: VteEventDto)
    ensures
        r@ == esc_event(*esc, sanitized(raw_bytes@)),
{
    let raw_bytes = sanitize_raw_bytes(raw_bytes);
    match esc {
        EscAction::Unspecified => VteEventDto::GenericEscape {
            title: None,
            icon: Some(Icon::QuestionMark),
            tooltip: some_text("Unspecified escape sequence"),
            raw_bytes,
        },
        EscAction::StringTerminator => VteEventDto::GenericEscape {
            title: some_text("\\"),
            icon: None,
            tooltip: some_text("ST / String Terminator"),
            raw_bytes,
        },
        EscAction::DecSaveCursorPosition => VteEventDto::GenericEscape {
            title: None,
            icon: Some(Icon::Save),
            tooltip: some_text("Save cursor position"),
            raw_bytes,
        },
        EscAction::DecRestoreCursorPosition => VteEventDto::GenericEscape {
            title: None,
            icon: Some(Icon::Restore),
            tooltip: some_text("Restore cursor position"),
            raw_bytes,
        },
        EscAction::AsciiCharacterSet { debug } => VteEventDto::GenericEscape {
            title: None,
            icon: Some(Icon::Alphabet),
            tooltip: Some(debug.clone()),
            raw_bytes,
        },
        EscAction::Other { debug } => VteEventDto::GenericEscape {
            title: some_text("ESC"),
            icon: None,
            tooltip: Some(debug.clone()),
            raw_bytes,
        },
    }
}


/// `prefix` followed by `rest`.
fn prefixed(prefix: &str, rest: &String) -> (r: Option<String>)
    ensures
        opt_view(r) == Some(prefix@ + rest@),
{
    let mut t = text(prefix);
    t.append(rest.as_str());
    Some(t)
}

/// Describes a control sequence whose bytes are already rendered.
pub fn csi_to_dto(csi: &CsiAction, raw_bytes: String) -> (r: VteEventDto)
    ensures
        r@ == csi_event(*csi, raw_bytes@),
{
    let (title, tooltip, icon) = match csi {
        CsiAction::Sgr(sgr) => match sgr {
            SgrAction::Reset => (
                None,
                some_text("SGR (Select Graphic Rendition) Reset (reset all styles)"),
                Some(Icon::Reset),
            ),
            SgrAction::Foreground { color, debug } => {
                let shown = match hex_color(color) {
                    Some(h) => h,
                    None => text("black"),
                };
                return VteEventDto::ColorEscape {
                    title: some_text("FG"),
                    icon: None,
                    tooltip: prefixed("Set foreground color to: ", debug),
                    color: shown,
                    raw_bytes,
                };
            },
            SgrAction::Background { color, debug } => {
                let shown = match hex_color(color) {
                    Some(h) => h,
                    None => text("black"),
                };
                return VteEventDto::ColorEscape {
                    title: some_text("BG"),
                    icon: None,
                    tooltip: prefixed("Set background color to: ", debug),
                    color: shown,
                    raw_bytes,
                };
            },
            SgrAction::Other { debug } => (some_text("SGR"), prefixed("Set ", debug), None),
        },
        CsiAction::Cursor { debug } => (None, prefixed("Update cursor: ", debug), Some(Icon::Cursor)),
        CsiAction::EraseInLine(erase) => (
            None,
            match erase {
                EraseInLine::EraseToEndOfLine => some_text("Erase to end of line"),
                EraseInLine::EraseToStartOfLine => some_text("Erase to start of line"),
                EraseInLine::EraseLine => some_text("Erase line"),
            },
            Some(Icon::Eraser),
        ),
        CsiAction::EraseInDisplay(erase) => (
            None,
            match erase {
                EraseInDisplay::EraseToEndOfDisplay => some_text("Erase to end of display"),
                EraseInDisplay::EraseToStartOfDisplay => some_text("Erase to start of display"),
                EraseInDisplay::EraseDisplay => some_text("Erase display"),
                EraseInDisplay::EraseScrollback => some_text("Erase scrollback"),
            },
            Some(Icon::Eraser),
        ),
        CsiAction::Edit { debug } => (some_text("Edit"), Some(debug.clone()), None),
        CsiAction::Other { debug } => (some_text("CSI"), Some(debug.clone()), None),
    };
    VteEventDto::GenericEscape { title, icon, tooltip, raw_bytes }
}

/// Describes an operating system command.
pub fn osc_to_dto(osc: &OscAction, raw_bytes: &[u8]) -> (r: VteEventDto)
    ensures
        r@ == osc_event(*osc, sanitized(raw_bytes@)),
{
    let raw_bytes = sanitize_raw_bytes(raw_bytes);
    match osc {
        OscAction::SetHyperlink(Some(link)) => VteEventDto::GenericEscape {
            title: None,
            icon: Some(Icon::Link),
            tooltip: prefixed("Set hyperlink: ", link),
            raw_bytes,
        },
        OscAction::SetHyperlink(None) => VteEventDto::GenericEscape {
            title: None,
            icon: Some(Icon::LinkOff),
            tooltip: some_text("Clear hyperlink"),
            raw_bytes,
        },
        OscAction::Other { debug } => VteEventDto::GenericEscape {
            title: some_text("OSC"),
            icon: None,
            tooltip: Some(debug.clone()),
            raw_bytes,
        },
    }
}

/// `names` separated by ", ".
pub fn join_names(names: &Vec<String>) -> (r: String)
    ensures
        r@ == joined(names@),
{
    let mut out = String::new();
    let mut i: usize = 0;
    while i < names.len()
        invariant
            i <= names@.len(),
            out@ == joined(names@.subrange(0, i as int)),
        decreases names@.len() - i,
    {
        let ghost before = names@.subrange(0, i as int);
        let ghost after = names@.subrange(0, i + 1);
        assert(after.drop_last() =~= before);
        if i == 0 {
            out.append(names[i].as_str());
            assert(out@ =~= joined(after));
        } else {
            out.append(", ");
            out.append(names[i].as_str());
        }
        i = i + 1;
    }
    assert(names@.subrange(0, names@.len() as int) =~= names@);
    out
}

fn copy_opt(o: &Option<String>) -> (r: Option<String>)
    ensures
        opt_view(r) == opt_view(*o),
{
    match o {
        Some(s) => Some(s.clone()),
        None => None,
    }
}

impl VteEventDto {
    /// A copy of the event.
    pub fn duplicate(&self) -> (r: VteEventDto)
        ensures
            r@ == self@,
    {
        match self {
            VteEventDto::Print { string, color, bg_color } => VteEventDto::Print {
                string: string.clone(),
                color: copy_opt(color),
                bg_color: copy_opt(bg_color),
            },
            VteEventDto::GenericEscape { title, icon, tooltip, raw_bytes } => VteEventDto::GenericEscape {
                title: copy_opt(title),
                icon: *icon,
                tooltip: copy_opt(tooltip),
                raw_bytes: raw_bytes.clone(),
            },
            VteEventDto::ColorEscape { title, icon, tooltip, color, raw_bytes } => VteEventDto::ColorEscape {
                title: copy_opt(title),
                icon: *icon,
                tooltip: copy_opt(tooltip),
                color: color.clone(),
                raw_bytes: raw_bytes.clone(),
            },
            VteEventDto::InvisibleLineBreak => VteEventDto::InvisibleLineBreak,
            VteEventDto::LineBreak { title } => VteEventDto::LineBreak { title: title.clone() },
        }
    }

    /// Describes a parsed action produced by the bytes `raw_bytes`. Printed
    /// text gets no colour here.
    pub fn from_action(action: &ParsedAction, raw_bytes: &[u8]) -> (r: VteEventDto)
        ensures
            r@ == describe(*action, raw_bytes@),
    {
        match action {
            ParsedAction::Print(c) => {
                let mut s = String::new();
                push_char(&mut s, *c);
                assert(s@ =~= seq![*c]);
                VteEventDto::Print { string: s, color: None, bg_color: None }
            },
            ParsedAction::PrintString(s) => VteEventDto::Print { string: s.clone(), color: None, bg_color: None },
            ParsedAction::Control { code, name } => ctrl_to_dto(*code, name),
            ParsedAction::DeviceControl { debug } => VteEventDto::GenericEscape {
                title: some_text("DCM"),
                icon: None,
                tooltip: Some(debug.clone()),
                raw_bytes: sanitize_raw_bytes(raw_bytes),
            },
            ParsedAction::OperatingSystemCommand(osc) => osc_to_dto(osc, raw_bytes),
            ParsedAction::Csi(csi) => csi_to_dto(csi, sanitize_raw_bytes(raw_bytes)),
            ParsedAction::Esc(e) => esc_to_dto(e, raw_bytes),
            ParsedAction::Sixel => VteEventDto::GenericEscape {
                title: some_text("Sixel"),
                icon: Some(Icon::Image),
                tooltip: some_text("Sixel image"),
                raw_bytes: sanitize_raw_bytes(raw_bytes),
            },
            ParsedAction::XtGetTcap(names) => {
                let list = join_names(names);
                VteEventDto::GenericEscape {
                    title: some_text("XTGETTCAP"),
                    icon: None,
                    tooltip: prefixed("Get termcap, terminfo for: ", &list),
                    raw_bytes: sanitize_raw_bytes(raw_bytes),
                }
            },
            ParsedAction::KittyImage => VteEventDto::GenericEscape {
                title: some_text("Kitty"),
                icon: Some(Icon::Image),
                tooltip: some_text("Kitty image"),
                raw_bytes: sanitize_raw_bytes(raw_bytes),
            },
        }
    }
}

} // verus!
