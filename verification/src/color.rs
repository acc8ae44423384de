//! Terminal colors: the default color, the classic 16-color palette,
//! 256-color mode and 24-bit true color.

use vstd::prelude::*;

verus! {

/// A color.
#[derive(Clone, Copy, Debug, PartialEq, Eq, Structural)]
pub enum Color {
    /// Default terminal color. eg. use this to set transparent background.
    Default,
    /// 4-bit, 16-color mode colors.
    Colors16 { code: ColorCode, bright: bool },
    /// 8-bit, 256-color mode colors.
    Colors256(u8),
    /// 24-bit, true-color mode colors.
    Rgb { r: u8, g: u8, b: u8 },
}

/// A simple 3-bit color code.
///
/// These colors should be compatible with just about any terminal under the sun.
#[derive(Clone, Copy, Debug, PartialEq, Eq, Structural)]
pub enum ColorCode {
    Black,
    Red,
    Green,
    Yellow,
    Blue,
    Magenta,
    Cyan,
    White,
}

impl ColorCode {
    /// The numeric value of this code inside an SGR color parameter
    /// (0 for black through 7 for white).
    pub open spec fn spec_number(self) -> u8 {
        match self {
            ColorCode::Black => 0,
            ColorCode::Red => 1,
            ColorCode::Green => 2,
            ColorCode::Yellow => 3,
            ColorCode::Blue => 4,
            ColorCode::Magenta => 5,
            ColorCode::Cyan => 6,
            ColorCode::White => 7,
        }
    }

    /// The numeric value of this code inside an SGR color parameter.
    pub fn number(self) -> (n: u8)
        ensures
            n == self.spec_number(),
    {
        match self {
            ColorCode::Black => 0,
            ColorCode::Red => 1,
            ColorCode::Green => 2,
            ColorCode::Yellow => 3,
            ColorCode::Blue => 4,
            ColorCode::Magenta => 5,
            ColorCode::Cyan => 6,
            ColorCode::White => 7,
        }
    }
}

impl Default for Color {
    fn default() -> (c: Color)
        ensures
            c == Color::Default,
    {
        Color::Default
    }
}

impl Color {
    pub fn black() -> (c: Color)
        ensures
            c == (Color::Colors16 { code: ColorCode::Black, bright: false }),
    {
        Color::Colors16 { code: ColorCode::Black, bright: false }
    }

    pub fn red() -> (c: Color)
        ensures
            c == (Color::Colors16 { code: ColorCode::Red, bright: false }),
    {
        Color::Colors16 { code: ColorCode::Red, bright: false }
    }

    pub fn green() -> (c: Color)
        ensures
            c == (Color::Colors16 { code: ColorCode::Green, bright: false }),
    {
        Color::Colors16 { code: ColorCode::Green, bright: false }
    }

    pub fn yellow() -> (c: Color)
        ensures
            c == (Color::Colors16 { code: ColorCode::Yellow, bright: false }),
    {
        Color::Colors16 { code: ColorCode::Yellow, bright: false }
    }

    pub fn blue() -> (c: Color)
        ensures
            c == (Color::Colors16 { code: ColorCode::Blue, bright: false }),
    {
        Color::Colors16 { code: ColorCode::Blue, bright: false }
    }

    pub fn magenta() -> (c: Color)
        ensures
            c == (Color::Colors16 { code: ColorCode::Magenta, bright: false }),
    {
        Color::Colors16 { code: ColorCode::Magenta, bright: false }
    }

    pub fn cyan() -> (c: Color)
        ensures
            c == (Color::Colors16 { code: ColorCode::Cyan, bright: false }),
    {
        Color::Colors16 { code: ColorCode::Cyan, bright: false }
    }

    pub fn white() -> (c: Color)
        ensures
            c == (Color::Colors16 { code: ColorCode::White, bright: false }),
    {
        Color::Colors16 { code: ColorCode::White, bright: false }
    }

    pub fn bright_black() -> (c: Color)
        ensures
            c == (Color::Colors16 { code: ColorCode::Black, bright: true }),
    {
        Color::Colors16 { code: ColorCode::Black, bright: true }
    }

    pub fn bright_red() -> (c: Color)
        ensures
            c == (Color::Colors16 { code: ColorCode::Red, bright: true }),
    {
        Color::Colors16 { code: ColorCode::Red, bright: true }
    }

    pub fn bright_green() -> (c: Color)
        ensures
            c == (Color::Colors16 { code: ColorCode::Green, bright: true }),
    {
        Color::Colors16 { code: ColorCode::Green, bright: true }
    }

    pub fn bright_yellow() -> (c: Color)
        ensures
            c == (Color::Colors16 { code: ColorCode::Yellow, bright: true }),
    {
        Color::Colors16 { code: ColorCode::Yellow, bright: true }
    }

    pub fn bright_blue() -> (c: Color)
        ensures
            c == (Color::Colors16 { code: ColorCode::Blue, bright: true }),
    {
        Color::Colors16 { code: ColorCode::Blue, bright: true }
    }

    pub fn bright_magenta() -> (c: Color)
        ensures
            c == (Color::Colors16 { code: ColorCode::Magenta, bright: true }),
    {
        Color::Colors16 { code: ColorCode::Magenta, bright: true }
    }

    pub fn bright_cyan() -> (c: Color)
        ensures
            c == (Color::Colors16 { code: ColorCode::Cyan, bright: true }),
    {
        Color::Colors16 { code: ColorCode::Cyan, bright: true }
    }

    pub fn bright_white() -> (c: Color)
        ensures
            c == (Color::Colors16 { code: ColorCode::White, bright: true }),
    {
        Color::Colors16 { code: ColorCode::White, bright: true }
    }

    pub fn rgb(r: u8, g: u8, b: u8) -> (c: Color)
        ensures
            c == (Color::Rgb { r, g, b }),
    {
        Color::Rgb { r, g, b }
    }
}

} // verus!
