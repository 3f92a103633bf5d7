//! The colours of the interface, as plain values.
use vstd::prelude::*;

verus! {

/// A 24-bit colour.
#[derive(Debug, Clone, Copy, PartialEq, Eq, Structural)]
pub struct Rgb {
    pub r: u8,
    pub g: u8,
    pub b: u8,
}

/// A text style: foreground and background colours, and whether it is bold.
#[derive(Debug, Clone, Copy, PartialEq, Eq, Structural)]
pub struct ThemeStyle {
    pub fg: Option<Rgb>,
    pub bg: Option<Rgb>,
    pub bold: bool,
}

/// The styles of the Steelbore look.
#[derive(Debug, Clone, Copy, PartialEq, Eq, Structural)]
pub struct SteelboreTheme {
    pub background: ThemeStyle,
    pub border_active: ThemeStyle,
    pub border_inactive: ThemeStyle,
    pub text_primary: ThemeStyle,
    pub text_header: ThemeStyle,
    pub highlight: ThemeStyle,
}

/// Charcoal navy.
pub open spec fn navy() -> Rgb {
    Rgb { r: 14, g: 20, b: 29 }
}

/// Vibrant orange.
pub open spec fn orange() -> Rgb {
    Rgb { r: 254, g: 107, b: 0 }
}

/// Midnight blue.
pub open spec fn midnight() -> Rgb {
    Rgb { r: 20, g: 46, b: 70 }
}

/// Silver grey.
pub open spec fn silver() -> Rgb {
    Rgb { r: 192, g: 192, b: 192 }
}

/// The industrial theme: navy canvas, bold orange active borders and headers,
/// midnight-blue inactive borders, silver text, and an orange selection with
/// navy text.
pub open spec fn industrial_theme() -> SteelboreTheme {
    SteelboreTheme {
        background: ThemeStyle { fg: None, bg: Some(navy()), bold: false },
        border_active: ThemeStyle { fg: Some(orange()), bg: None, bold: true },
        border_inactive: ThemeStyle { fg: Some(midnight()), bg: None, bold: false },
        text_primary: ThemeStyle { fg: Some(silver()), bg: None, bold: false },
        text_header: ThemeStyle { fg: Some(orange()), bg: None, bold: true },
        highlight: ThemeStyle { fg: Some(navy()), bg: Some(orange()), bold: true },
    }
}

impl SteelboreTheme {
    /// The industrial theme.
    pub fn industrial() -> (t: Self)
        ensures
            t == industrial_theme(),
    {
        let navy = Rgb { r: 14, g: 20, b: 29 };
        let orange = Rgb { r: 254, g: 107, b: 0 };
        let midnight = Rgb { r: 20, g: 46, b: 70 };
        let silver = Rgb { r: 192, g: 192, b: 192 };
        SteelboreTheme {
            background: ThemeStyle { fg: None, bg: Some(navy), bold: false },
            border_active: ThemeStyle { fg: Some(orange), bg: None, bold: true },
            border_inactive: ThemeStyle { fg: Some(midnight), bg: None, bold: false },
            text_primary: ThemeStyle { fg: Some(silver), bg: None, bold: false },
            text_header: ThemeStyle { fg: Some(orange), bg: None, bold: true },
            highlight: ThemeStyle { fg: Some(navy), bg: Some(orange), bold: true },
        }
    }
}

} // verus!
