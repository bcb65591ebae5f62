//! The finite formatting model of the wire protocol: the control byte
//! of each formatting modifier, and the sixteen-slot color palette with
//! its numeric codes and canonical digit strings.
use vstd::prelude::*;

use crate::strutil;

verus! {

/// A formatting modifier of the wire protocol. Each maps to exactly one
/// control character of the legacy formatting convention.
#[derive(Clone, Copy, Debug, PartialEq, Eq, Structural)]
pub enum Modifier {
    Bold,
    Italics,
    Monospace,
    Color,
    Reset,
}

impl Modifier {
    /// The control character of this modifier.
    pub open spec fn spec_char(self) -> char {
        match self {
            Modifier::Bold => '\u{02}',
            Modifier::Italics => '\u{1d}',
            Modifier::Monospace => '\u{11}',
            Modifier::Color => '\u{03}',
            Modifier::Reset => '\u{0f}',
        }
    }

    /// The control character of this modifier.
    pub fn char(&self) -> (c: char)
        ensures
            c == self.spec_char(),
    {
        match self {
            Modifier::Bold => '\u{02}',
            Modifier::Italics => '\u{1d}',
            Modifier::Monospace => '\u{11}',
            Modifier::Color => '\u{03}',
            Modifier::Reset => '\u{0f}',
        }
    }
}

/// A palette color. The declaration order matches the numeric palette
/// codes 0 through 15.
#[derive(Clone, Copy, Debug, PartialEq, Eq, Structural)]
pub enum Color {
    White,
    Black,
    Blue,
    Green,
    Red,
    Brown,
    Magenta,
    Orange,
    Yellow,
    LightGreen,
    Cyan,
    LightCyan,
    LightBlue,
    Pink,
    Grey,
    LightGrey,
}

impl Color {
    /// The numeric palette code of this color.
    pub open spec fn spec_code(self) -> u8 {
        match self {
            Color::White => 0,
            Color::Black => 1,
            Color::Blue => 2,
            Color::Green => 3,
            Color::Red => 4,
            Color::Brown => 5,
            Color::Magenta => 6,
            Color::Orange => 7,
            Color::Yellow => 8,
            Color::LightGreen => 9,
            Color::Cyan => 10,
            Color::LightCyan => 11,
            Color::LightBlue => 12,
            Color::Pink => 13,
            Color::Grey => 14,
            Color::LightGrey => 15,
        }
    }

    /// The color a numeric code maps to, if the palette recognizes it.
    pub open spec fn spec_from_code(code: u8) -> Option<Color> {
        if code == 0 {
            Some(Color::White)
        } else if code == 1 {
            Some(Color::Black)
        } else if code == 2 {
            Some(Color::Blue)
        } else if code == 3 {
            Some(Color::Green)
        } else if code == 4 {
            Some(Color::Red)
        } else if code == 5 {
            Some(Color::Brown)
        } else if code == 6 {
            Some(Color::Magenta)
        } else if code == 7 {
            Some(Color::Orange)
        } else if code == 8 {
            Some(Color::Yellow)
        } else if code == 9 {
            Some(Color::LightGreen)
        } else if code == 10 {
            Some(Color::Cyan)
        } else if code == 11 {
            Some(Color::LightCyan)
        } else if code == 12 {
            Some(Color::LightBlue)
        } else if code == 13 {
            Some(Color::Pink)
        } else if code == 14 {
            Some(Color::Grey)
        } else if code == 15 {
            Some(Color::LightGrey)
        } else {
            None
        }
    }

    /// Looks a numeric code up in the palette. A code is valid exactly
    /// when it is at most 15, and the color found maps back to the same
    /// code.
    pub fn code(code: u8) -> (r: Option<Color>)
        ensures
            r == Color::spec_from_code(code),
            r is Some <==> code <= 15,
            r matches Some(c) ==> c.spec_code() == code,
    {
        match code {
            0 => Some(Color::White),
            1 => Some(Color::Black),
            2 => Some(Color::Blue),
            3 => Some(Color::Green),
            4 => Some(Color::Red),
            5 => Some(Color::Brown),
            6 => Some(Color::Magenta),
            7 => Some(Color::Orange),
            8 => Some(Color::Yellow),
            9 => Some(Color::LightGreen),
            10 => Some(Color::Cyan),
            11 => Some(Color::LightCyan),
            12 => Some(Color::LightBlue),
            13 => Some(Color::Pink),
            14 => Some(Color::Grey),
            15 => Some(Color::LightGrey),
            _ => None,
        }
    }

    /// The numeric palette code of this color.
    pub fn digit(&self) -> (d: u8)
        ensures
            d == self.spec_code(),
    {
        match self {
            Color::White => 0,
            Color::Black => 1,
            Color::Blue => 2,
            Color::Green => 3,
            Color::Red => 4,
            Color::Brown => 5,
            Color::Magenta => 6,
            Color::Orange => 7,
            Color::Yellow => 8,
            Color::LightGreen => 9,
            Color::Cyan => 10,
            Color::LightCyan => 11,
            Color::LightBlue => 12,
            Color::Pink => 13,
            Color::Grey => 14,
            Color::LightGrey => 15,
        }
    }

    /// The canonical digit string of this color, as emitted on the wire.
    pub open spec fn spec_digits(self) -> Seq<char> {
        strutil::spec_dec(self.spec_code() as int)
    }

    /// Appends the canonical digit string of this color to `out`.
    pub fn push_digits(&self, out: &mut String)
        ensures
            final(out)@ == old(out)@ + self.spec_digits(),
    {
        let d = self.digit();
        strutil::push_dec(out, d as u64);
    }
}

} // verus!
