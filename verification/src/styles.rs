//! The decorations that a report is rendered with: one per visual role, each
//! either a foreground colour or nothing.

use crate::text::digit;
use vstd::prelude::*;

verus! {

/// A colour of the sixteen-colour terminal palette.
#[derive(Clone, Copy, Debug, Hash, PartialEq, Eq)]
pub enum Color {
    Black,
    Red,
    Green,
    Yellow,
    Blue,
    Magenta,
    Cyan,
    White,
    BrightBlack,
    BrightRed,
    BrightGreen,
    BrightYellow,
    BrightBlue,
    BrightMagenta,
    BrightCyan,
    BrightWhite,
}

impl Color {
    /// Place of the colour in the palette: 0 to 7 for the plain colours, 8
    /// to 15 for the bright ones, each in the order black, red, green,
    /// yellow, blue, magenta, cyan, white.
    pub open spec fn palette_index(self) -> nat {
        match self {
            Color::Black => 0,
            Color::Red => 1,
            Color::Green => 2,
            Color::Yellow => 3,
            Color::Blue => 4,
            Color::Magenta => 5,
            Color::Cyan => 6,
            Color::White => 7,
            Color::BrightBlack => 8,
            Color::BrightRed => 9,
            Color::BrightGreen => 10,
            Color::BrightYellow => 11,
            Color::BrightBlue => 12,
            Color::BrightMagenta => 13,
            Color::BrightCyan => 14,
            Color::BrightWhite => 15,
        }
    }

    /// Place of the colour in the palette.
    pub fn index(self) -> (index: u8)
        ensures
            index == self.palette_index(),
            index < 16,
    {
        match self {
            Color::Black => 0,
            Color::Red => 1,
            Color::Green => 2,
            Color::Yellow => 3,
            Color::Blue => 4,
            Color::Magenta => 5,
            Color::Cyan => 6,
            Color::White => 7,
            Color::BrightBlack => 8,
            Color::BrightRed => 9,
            Color::BrightGreen => 10,
            Color::BrightYellow => 11,
            Color::BrightBlue => 12,
            Color::BrightMagenta => 13,
            Color::BrightCyan => 14,
            Color::BrightWhite => 15,
        }
    }
}

/// The escape sequence that selects the palette colour `index` as the
/// foreground: `ESC [ 3 n m` for the plain colours, `ESC [ 9 n m` for the
/// bright ones, `n` being the colour's place among its eight.
pub open spec fn foreground_sequence(index: nat) -> Seq<char>
    recommends
        index < 16,
{
    seq!['\x1b', '[', if index < 8 { '3' } else { '9' }, digit(index % 8), 'm']
}

/// The escape sequence that puts the terminal back to its defaults:
/// `ESC [ 0 m`.
pub open spec fn reset_sequence() -> Seq<char> {
    seq!['\x1b', '[', '0', 'm']
}

/// How a piece of a report is decorated.
#[derive(Clone, Copy, Debug, PartialEq, Eq)]
pub enum Decoration {
    /// No decoration: nothing is written before or after the text.
    Plain,
    /// The text is written in the given foreground colour.
    Foreground(Color),
}

impl Decoration {
    /// What is written before a text to decorate it.
    pub open spec fn opening(self) -> Seq<char> {
        match self {
            Decoration::Plain => Seq::empty(),
            Decoration::Foreground(color) => foreground_sequence(color.palette_index()),
        }
    }

    /// What is written after a text to end its decoration.
    pub open spec fn closing(self) -> Seq<char> {
        match self {
            Decoration::Plain => Seq::empty(),
            Decoration::Foreground(_) => reset_sequence(),
        }
    }

    /// Appends to `out` what opens the decoration.
    pub fn open(self, out: &mut String)
        ensures
            final(out)@ == old(out)@ + self.opening(),
    {
        match self {
            Decoration::Plain => {
                assert(out@ =~= old(out)@ + self.opening());
            },
            Decoration::Foreground(color) => {
                let code = foreground_code(color.index());
                out.append(code.as_str());
            },
        }
    }

    /// Appends to `out` what closes the decoration.
    pub fn close(self, out: &mut String)
        ensures
            final(out)@ == old(out)@ + self.closing(),
    {
        match self {
            Decoration::Plain => {
                assert(out@ =~= old(out)@ + self.closing());
            },
            Decoration::Foreground(_) => {
                let code = reset_code();
                out.append(code.as_str());
            },
        }
    }
}

/// Renders, through `anstyle::Style::render`, the style whose only setting
/// is the foreground colour that `anstyle::Ansi256Color::into_ansi` gives
/// for `index`. The contract claims that anstyle writes for it the escape
/// sequence `ESC [ 3 n m` or `ESC [ 9 n m` of that palette colour and
/// nothing else.
#[verifier::external_body]
fn foreground_code(index: u8) -> (code: String)
    requires
        index < 16,
    ensures
        code@ == foreground_sequence(index as nat),
{
    let color = anstyle::Ansi256Color(index).into_ansi().map(anstyle::Color::Ansi);
    anstyle::Style::new().fg_color(color).render().to_string()
}

/// Renders `anstyle::Reset`. The contract claims that anstyle writes for it
/// the escape sequence `ESC [ 0 m`.
#[verifier::external_body]
fn reset_code() -> (code: String)
    ensures
        code@ == reset_sequence(),
{
    anstyle::Reset.render().to_string()
}

/// The decorations of a rendered report, one for each visual role.
#[derive(Clone, Copy, Debug, PartialEq, Eq)]
pub struct Styles {
    /// The place of the report: path, line and column.
    pub location: Decoration,
    /// The label of a bug.
    pub bug: Decoration,
    /// The label of an error.
    pub error: Decoration,
    /// The label of a warning.
    pub warning: Decoration,
    /// The label of a note.
    pub note: Decoration,
    /// The separator between label and message.
    pub colon: Decoration,
    /// The message.
    pub message: Decoration,
    /// The line of the source that the report points into.
    pub snippet: Decoration,
    /// The marker under the character that the report points at.
    pub cursor: Decoration,
}

impl Styles {
    /// The coloured decorations.
    pub open spec fn styled_spec() -> Styles {
        Styles {
            location: Decoration::Foreground(Color::BrightWhite),
            bug: Decoration::Foreground(Color::BrightRed),
            error: Decoration::Foreground(Color::BrightRed),
            warning: Decoration::Foreground(Color::BrightYellow),
            note: Decoration::Foreground(Color::BrightCyan),
            colon: Decoration::Foreground(Color::BrightBlack),
            message: Decoration::Foreground(Color::BrightWhite),
            snippet: Decoration::Plain,
            cursor: Decoration::Foreground(Color::BrightGreen),
        }
    }

    /// No decoration for any role.
    pub open spec fn plain_spec() -> Styles {
        Styles {
            location: Decoration::Plain,
            bug: Decoration::Plain,
            error: Decoration::Plain,
            warning: Decoration::Plain,
            note: Decoration::Plain,
            colon: Decoration::Plain,
            message: Decoration::Plain,
            snippet: Decoration::Plain,
            cursor: Decoration::Plain,
        }
    }

    /// The coloured decorations: bright white for the place and the
    /// message, bright red for bugs and errors, bright yellow for warnings,
    /// bright cyan for notes, bright black for the separator, bright green
    /// for the cursor, and none for the snippet.
    #[verifier::when_used_as_spec(styled_spec)]
    pub fn styled() -> (styles: Styles)
        ensures
            styles == Styles::styled_spec(),
    {
        Styles {
            location: Decoration::Foreground(Color::BrightWhite),
            bug: Decoration::Foreground(Color::BrightRed),
            error: Decoration::Foreground(Color::BrightRed),
            warning: Decoration::Foreground(Color::BrightYellow),
            note: Decoration::Foreground(Color::BrightCyan),
            colon: Decoration::Foreground(Color::BrightBlack),
            message: Decoration::Foreground(Color::BrightWhite),
            snippet: Decoration::Plain,
            cursor: Decoration::Foreground(Color::BrightGreen),
        }
    }

    /// No decoration for any role: what is rendered holds no escape
    /// sequence, for targets that do not understand them.
    #[verifier::when_used_as_spec(plain_spec)]
    pub fn plain() -> (styles: Styles)
        ensures
            styles == Styles::plain_spec(),
    {
        Styles {
            location: Decoration::Plain,
            bug: Decoration::Plain,
            error: Decoration::Plain,
            warning: Decoration::Plain,
            note: Decoration::Plain,
            colon: Decoration::Plain,
            message: Decoration::Plain,
            snippet: Decoration::Plain,
            cursor: Decoration::Plain,
        }
    }
}

} // verus!
