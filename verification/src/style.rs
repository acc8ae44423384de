//! Styling of terminal cells: colors, boldness, underlines and friends.

use vstd::prelude::*;
use crate::color::Color;

verus! {

/// The color and styling attributes of a terminal cell.
#[derive(Clone, Copy, Debug, PartialEq, Eq, Structural)]
pub struct Style {
    pub fg: Color,
    pub bg: Color,
    pub attrs: Attrs,
}

/// The style in which every field takes its default value.
pub open spec fn default_style() -> Style {
    Style { fg: Color::Default, bg: Color::Default, attrs: default_attrs() }
}

/// The attributes in which every flag is off.
pub open spec fn default_attrs() -> Attrs {
    Attrs {
        bold: false,
        faint: false,
        italic: false,
        underline: None,
        blink: false,
        strikethrough: false,
        overlined: false,
    }
}

impl Default for Style {
    fn default() -> (s: Style)
        ensures
            s == default_style(),
    {
        Style { fg: Color::Default, bg: Color::Default, attrs: Attrs::default() }
    }
}

impl Style {
    pub fn bold() -> (s: Style)
        ensures
            s == (Style { attrs: Attrs { bold: true, ..default_attrs() }, ..default_style() }),
    {
        Style { attrs: Attrs::bold(), ..Style::default() }
    }

    pub fn underline(style: UnderlineStyle) -> (s: Style)
        ensures
            s == (Style {
                attrs: Attrs { underline: Some(style), ..default_attrs() },
                ..default_style()
            }),
    {
        Style { attrs: Attrs::underline(style), ..Style::default() }
    }

    pub fn faint() -> (s: Style)
        ensures
            s == (Style { attrs: Attrs { faint: true, ..default_attrs() }, ..default_style() }),
    {
        Style { attrs: Attrs::faint(), ..Style::default() }
    }

    pub fn italic() -> (s: Style)
        ensures
            s == (Style { attrs: Attrs { italic: true, ..default_attrs() }, ..default_style() }),
    {
        Style { attrs: Attrs::italic(), ..Style::default() }
    }

    pub fn blink() -> (s: Style)
        ensures
            s == (Style { attrs: Attrs { blink: true, ..default_attrs() }, ..default_style() }),
    {
        Style { attrs: Attrs::blink(), ..Style::default() }
    }

    pub fn strikethrough() -> (s: Style)
        ensures
            s == (Style {
                attrs: Attrs { strikethrough: true, ..default_attrs() },
                ..default_style()
            }),
    {
        Style { attrs: Attrs::strikethrough(), ..Style::default() }
    }

    pub fn overlined() -> (s: Style)
        ensures
            s == (Style { attrs: Attrs { overlined: true, ..default_attrs() }, ..default_style() }),
    {
        Style { attrs: Attrs::overlined(), ..Style::default() }
    }

    pub fn fg(color: Color) -> (s: Style)
        ensures
            s == (Style { fg: color, ..default_style() }),
    {
        Style { fg: color, ..Style::default() }
    }

    pub fn bg(color: Color) -> (s: Style)
        ensures
            s == (Style { bg: color, ..default_style() }),
    {
        Style { bg: color, ..Style::default() }
    }
}

/// Styling attributes - bold, underlined, etc.
#[derive(Clone, Copy, Debug, PartialEq, Eq, Structural)]
pub struct Attrs {
    pub bold: bool,
    pub faint: bool,
    pub italic: bool,
    pub underline: Option<UnderlineStyle>,
    pub blink: bool,
    pub strikethrough: bool,
    pub overlined: bool,
}

impl Default for Attrs {
    fn default() -> (a: Attrs)
        ensures
            a == default_attrs(),
    {
        Attrs {
            bold: false,
            faint: false,
            italic: false,
            underline: None,
            blink: false,
            strikethrough: false,
            overlined: false,
        }
    }
}

impl Attrs {
    pub fn underline(style: UnderlineStyle) -> (a: Attrs)
        ensures
            a == (Attrs { underline: Some(style), ..default_attrs() }),
    {
        Attrs { underline: Some(style), ..Attrs::default() }
    }

    pub fn bold() -> (a: Attrs)
        ensures
            a == (Attrs { bold: true, ..default_attrs() }),
    {
        Attrs { bold: true, ..Attrs::default() }
    }

    pub fn faint() -> (a: Attrs)
        ensures
            a == (Attrs { faint: true, ..default_attrs() }),
    {
        Attrs { faint: true, ..Attrs::default() }
    }

    pub fn italic() -> (a: Attrs)
        ensures
            a == (Attrs { italic: true, ..default_attrs() }),
    {
        Attrs { italic: true, ..Attrs::default() }
    }

    pub fn blink() -> (a: Attrs)
        ensures
            a == (Attrs { blink: true, ..default_attrs() }),
    {
        Attrs { blink: true, ..Attrs::default() }
    }

    pub fn strikethrough() -> (a: Attrs)
        ensures
            a == (Attrs { strikethrough: true, ..default_attrs() }),
    {
        Attrs { strikethrough: true, ..Attrs::default() }
    }

    pub fn overlined() -> (a: Attrs)
        ensures
            a == (Attrs { overlined: true, ..default_attrs() }),
    {
        Attrs { overlined: true, ..Attrs::default() }
    }
}

/// The style of an underline.
#[derive(Clone, Copy, Debug, PartialEq, Eq, Structural)]
pub struct UnderlineStyle {
    pub kind: UnderlineKind,
    pub color: Color,
}

impl UnderlineStyle {
    pub fn single() -> (u: UnderlineStyle)
        ensures
            u == (UnderlineStyle { kind: UnderlineKind::Single, color: Color::Default }),
    {
        UnderlineStyle { kind: UnderlineKind::Single, color: Color::default() }
    }

    pub fn double() -> (u: UnderlineStyle)
        ensures
            u == (UnderlineStyle { kind: UnderlineKind::Double, color: Color::Default }),
    {
        UnderlineStyle { kind: UnderlineKind::Double, color: Color::default() }
    }

    pub fn wavy() -> (u: UnderlineStyle)
        ensures
            u == (UnderlineStyle { kind: UnderlineKind::Wavy, color: Color::Default }),
    {
        UnderlineStyle { kind: UnderlineKind::Wavy, color: Color::default() }
    }
}

/// The kind of underline.
#[derive(Clone, Copy, Debug, PartialEq, Eq, Structural)]
pub enum UnderlineKind {
    Single,
    Double,
    Wavy,
}

} // verus!
