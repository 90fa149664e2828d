//! Terminal color primitives.
use vstd::prelude::*;

verus! {

/// A 24-bit RGB color.
#[derive(Debug, Clone, Copy, PartialEq, Eq, Structural)]
pub struct TerminalColor {
    pub red: u8,
    pub green: u8,
    pub blue: u8,
}

/// The 16-entry ANSI palette: eight normal colors followed by eight bright ones.
pub open spec fn ansi_palette(index: u8) -> TerminalColor
    recommends
        index < 16,
{
    let (r, g, b): (u8, u8, u8) = if index == 0 {
        (0, 0, 0)
    } else if index == 1 {
        (205, 0, 0)
    } else if index == 2 {
        (0, 205, 0)
    } else if index == 3 {
        (205, 205, 0)
    } else if index == 4 {
        (0, 0, 238)
    } else if index == 5 {
        (205, 0, 205)
    } else if index == 6 {
        (0, 205, 205)
    } else if index == 7 {
        (229, 229, 229)
    } else if index == 8 {
        (127, 127, 127)
    } else if index == 9 {
        (255, 0, 0)
    } else if index == 10 {
        (0, 255, 0)
    } else if index == 11 {
        (255, 255, 0)
    } else if index == 12 {
        (92, 92, 255)
    } else if index == 13 {
        (255, 0, 255)
    } else if index == 14 {
        (0, 255, 255)
    } else {
        (255, 255, 255)
    };
    TerminalColor { red: r, green: g, blue: b }
}

impl TerminalColor {
    /// Pure black, the default background.
    pub fn black() -> (c: TerminalColor)
        ensures
            c == (TerminalColor { red: 0, green: 0, blue: 0 }),
    {
        TerminalColor { red: 0, green: 0, blue: 0 }
    }

    /// Pure white, the default foreground.
    pub fn white() -> (c: TerminalColor)
        ensures
            c == (TerminalColor { red: 255, green: 255, blue: 255 }),
    {
        TerminalColor { red: 255, green: 255, blue: 255 }
    }

    /// Builds a color from its three channels.
    pub fn rgb(red: u8, green: u8, blue: u8) -> (c: TerminalColor)
        ensures
            c == (TerminalColor { red, green, blue }),
    {
        TerminalColor { red, green, blue }
    }

    /// The ANSI palette color with the given index (0-7 normal, 8-15 bright).
    pub fn ansi(index: u8) -> (c: TerminalColor)
        requires
            index < 16,
        ensures
            c == ansi_palette(index),
    {
        let (r, g, b): (u8, u8, u8) = if index == 0 {
            (0, 0, 0)
        } else if index == 1 {
            (205, 0, 0)
        } else if index == 2 {
            (0, 205, 0)
        } else if index == 3 {
            (205, 205, 0)
        } else if index == 4 {
            (0, 0, 238)
        } else if index == 5 {
            (205, 0, 205)
        } else if index == 6 {
            (0, 205, 205)
        } else if index == 7 {
            (229, 229, 229)
        } else if index == 8 {
            (127, 127, 127)
        } else if index == 9 {
            (255, 0, 0)
        } else if index == 10 {
            (0, 255, 0)
        } else if index == 11 {
            (255, 255, 0)
        } else if index == 12 {
            (92, 92, 255)
        } else if index == 13 {
            (255, 0, 255)
        } else if index == 14 {
            (0, 255, 255)
        } else {
            (255, 255, 255)
        };
        TerminalColor { red: r, green: g, blue: b }
    }
}

} // verus!
