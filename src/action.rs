//! What the escape-sequence parser reports, as plain values.
//!
//! Each variant keeps what the description of the action needs: the
//! sub-cases that get their own wording, and otherwise a human-readable
//! rendering of the action (`debug`) made where the action was parsed.

use vstd::prelude::*;
use crate::color::ColorSpec;

verus! {

/// One semantic unit reported by the parser.
#[derive(Clone, Debug)]
pub enum ParsedAction {
    /// One printable character.
    Print(char),
    /// A run of printable characters.
    PrintString(String),
    /// A C0 or C1 control code, with its byte value and its name.
    Control { code: u8, name: String },
    /// A device control string.
    DeviceControl { debug: String },
    /// An operating system command.
    OperatingSystemCommand(OscAction),
    /// A control sequence introduced by `ESC [`.
    Csi(CsiAction),
    /// An escape sequence.
    Esc(EscAction),
    /// A sixel image.
    Sixel,
    /// A request for termcap / terminfo entries, by name.
    XtGetTcap(Vec<String>),
    /// A kitty image.
    KittyImage,
}

/// Operating system commands.
#[derive(Clone, Debug)]
pub enum OscAction {
    /// Start a hyperlink to the given target, or end it (`None`).
    SetHyperlink(Option<String>),
    Other { debug: String },
}

/// Escape sequences.
#[derive(Clone, Debug)]
pub enum EscAction {
    Unspecified,
    StringTerminator,
    DecSaveCursorPosition,
    DecRestoreCursorPosition,
    /// Selection of the ASCII character set into G0 or G1.
    AsciiCharacterSet { debug: String },
    Other { debug: String },
}

/// Control sequences.
#[derive(Clone, Debug)]
pub enum CsiAction {
    Sgr(SgrAction),
    Cursor { debug: String },
    EraseInLine(EraseInLine),
    EraseInDisplay(EraseInDisplay),
    /// Any other editing sequence.
    Edit { debug: String },
    Other { debug: String },
}

/// Select Graphic Rendition.
#[derive(Clone, Debug)]
pub enum SgrAction {
    Reset,
    Foreground { color: ColorSpec, debug: String },
    Background { color: ColorSpec, debug: String },
    Other { debug: String },
}

#[derive(Clone, Copy, Debug, PartialEq, Eq, Structural)]
pub enum EraseInLine {
    EraseToEndOfLine,
    EraseToStartOfLine,
    EraseLine,
}

#[derive(Clone, Copy, Debug, PartialEq, Eq, Structural)]
pub enum EraseInDisplay {
    EraseToEndOfDisplay,
    EraseToStartOfDisplay,
    EraseDisplay,
    EraseScrollback,
}

} // verus!
