//! The colors and text styles of the screen, as RGB values.
use vstd::prelude::*;

verus! {

/// A color by its red, green and blue parts.
#[derive(Debug, Clone, Copy, PartialEq, Eq, Structural)]
pub struct Rgb {
    pub r: u8,
    pub g: u8,
    pub b: u8,
}

/// A text style: foreground and background colors (none keeps the terminal's) and boldness.
#[derive(Debug, Clone, Copy, PartialEq, Eq, Structural)]
pub struct TextStyle {
    pub fg: Option<Rgb>,
    pub bg: Option<Rgb>,
    pub bold: bool,
}

/// The palette.
pub struct Theme;

impl Theme {
    /// The screen's background.
    pub fn bg() -> (c: Rgb)
        ensures
            c == (Rgb { r: 12, g: 16, b: 26 }),
    {
        Rgb { r: 12, g: 16, b: 26 }
    }

    /// The panels' background.
    pub fn surface() -> (c: Rgb)
        ensures
            c == (Rgb { r: 24, g: 31, b: 45 }),
    {
        Rgb { r: 24, g: 31, b: 45 }
    }

    /// Ordinary text.
    pub fn text() -> (c: Rgb)
        ensures
            c == (Rgb { r: 227, g: 235, b: 248 }),
    {
        Rgb { r: 227, g: 235, b: 248 }
    }

    /// Muted text.
    pub fn muted() -> (c: Rgb)
        ensures
            c == (Rgb { r: 139, g: 151, b: 173 }),
    {
        Rgb { r: 139, g: 151, b: 173 }
    }

    /// The accent.
    pub fn accent() -> (c: Rgb)
        ensures
            c == (Rgb { r: 54, g: 164, b: 255 }),
    {
        Rgb { r: 54, g: 164, b: 255 }
    }

    /// Success.
    pub fn success() -> (c: Rgb)
        ensures
            c == (Rgb { r: 81, g: 214, b: 154 }),
    {
        Rgb { r: 81, g: 214, b: 154 }
    }

    /// Warnings.
    pub fn warning() -> (c: Rgb)
        ensures
            c == (Rgb { r: 247, g: 191, b: 84 }),
    {
        Rgb { r: 247, g: 191, b: 84 }
    }

    /// Errors.
    pub fn error() -> (c: Rgb)
        ensures
            c == (Rgb { r: 241, g: 104, b: 122 }),
    {
        Rgb { r: 241, g: 104, b: 122 }
    }

    /// Ordinary text on the screen's background.
    pub fn base() -> (s: TextStyle)
        ensures
            s == (TextStyle { fg: Some(Rgb { r: 227, g: 235, b: 248 }), bg: Some(Rgb { r: 12, g: 16, b: 26 }), bold: false }),
    {
        TextStyle { fg: Some(Self::text()), bg: Some(Self::bg()), bold: false }
    }

    /// Ordinary text on a panel.
    pub fn panel() -> (s: TextStyle)
        ensures
            s == (TextStyle { fg: Some(Rgb { r: 227, g: 235, b: 248 }), bg: Some(Rgb { r: 24, g: 31, b: 45 }), bold: false }),
    {
        TextStyle { fg: Some(Self::text()), bg: Some(Self::surface()), bold: false }
    }

    /// Muted text.
    pub fn muted_text() -> (s: TextStyle)
        ensures
            s == (TextStyle { fg: Some(Rgb { r: 139, g: 151, b: 173 }), bg: None, bold: false }),
    {
        TextStyle { fg: Some(Self::muted()), bg: None, bold: false }
    }

    /// Accented bold text.
    pub fn accent_text() -> (s: TextStyle)
        ensures
            s == (TextStyle { fg: Some(Rgb { r: 54, g: 164, b: 255 }), bg: None, bold: true }),
    {
        TextStyle { fg: Some(Self::accent()), bg: None, bold: true }
    }

    /// The row under the cursor.
    pub fn selected_row() -> (s: TextStyle)
        ensures
            s == (TextStyle { fg: Some(Rgb { r: 227, g: 235, b: 248 }), bg: Some(Rgb { r: 35, g: 56, b: 80 }), bold: false }),
    {
        TextStyle { fg: Some(Self::text()), bg: Some(Rgb { r: 35, g: 56, b: 80 }), bold: false }
    }
}

} // verus!
