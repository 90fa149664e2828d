//! Terminal screen cell model.
use vstd::prelude::*;

use crate::terminal::color::TerminalColor;

verus! {

/// Drawing attributes that new cells inherit.
#[derive(Debug, Clone, Copy, PartialEq, Eq, Structural)]
pub struct CellStyle {
    pub foreground: TerminalColor,
    pub background: TerminalColor,
    pub bold: bool,
    pub italic: bool,
    pub underline: bool,
}

/// The style every cell and parser starts with: white on black, no attributes.
pub open spec fn default_style() -> CellStyle {
    CellStyle {
        foreground: TerminalColor { red: 255, green: 255, blue: 255 },
        background: TerminalColor { red: 0, green: 0, blue: 0 },
        bold: false,
        italic: false,
        underline: false,
    }
}

impl CellStyle {
    /// The default style (white on black, no attributes).
    pub fn default_style() -> (s: CellStyle)
        ensures
            s == default_style(),
    {
        CellStyle {
            foreground: TerminalColor::white(),
            background: TerminalColor::black(),
            bold: false,
            italic: false,
            underline: false,
        }
    }
}

impl Default for CellStyle {
    fn default() -> (s: CellStyle)
        ensures
            s == default_style(),
    {
        CellStyle::default_style()
    }
}

/// One screen cell.
#[derive(Debug, PartialEq, Eq)]
pub struct TerminalCell {
    pub grapheme: String,
    pub foreground: TerminalColor,
    pub background: TerminalColor,
    pub bold: bool,
    pub italic: bool,
    pub underline: bool,
    /// True for the trailing cells covered by a wide character.
    pub wide_continuation: bool,
}

/// Mathematical model of a cell: its text as a character sequence.
pub struct CellView {
    pub grapheme: Seq<char>,
    pub style: CellStyle,
    pub wide_continuation: bool,
}

impl View for TerminalCell {
    type V = CellView;

    open spec fn view(&self) -> CellView {
        CellView {
            grapheme: self.grapheme@,
            style: CellStyle {
                foreground: self.foreground,
                background: self.background,
                bold: self.bold,
                italic: self.italic,
                underline: self.underline,
            },
            wide_continuation: self.wide_continuation,
        }
    }
}

/// A cell holding `grapheme` drawn with `style`.
pub open spec fn glyph_cell(grapheme: Seq<char>, style: CellStyle, continuation: bool) -> CellView {
    CellView { grapheme, style, wide_continuation: continuation }
}

/// A blank (single space) cell drawn with `style`.
pub open spec fn blank_cell(style: CellStyle) -> CellView {
    glyph_cell(seq![' '], style, false)
}

impl Clone for TerminalCell {
    fn clone(&self) -> (c: TerminalCell)
        ensures
            c == *self,
    {
        TerminalCell {
            grapheme: self.grapheme.clone(),
            foreground: self.foreground,
            background: self.background,
            bold: self.bold,
            italic: self.italic,
            underline: self.underline,
            wide_continuation: self.wide_continuation,
        }
    }
}

impl TerminalCell {
    /// A cell with the given text and style.
    pub fn with_grapheme(grapheme: String, style: &CellStyle, continuation: bool) -> (c: TerminalCell)
        ensures
            c@ == glyph_cell(grapheme@, *style, continuation),
    {
        TerminalCell {
            grapheme,
            foreground: style.foreground,
            background: style.background,
            bold: style.bold,
            italic: style.italic,
            underline: style.underline,
            wide_continuation: continuation,
        }
    }

    /// A blank cell carrying the colors and attributes of `style`.
    pub fn blank_with_style(style: &CellStyle) -> (c: TerminalCell)
        ensures
            c@ == blank_cell(*style),
    {
        let mut g = String::new();
        crate::text::push_char(&mut g, ' ');
        proof {
            assert(g@ =~= seq![' ']);
        }
        TerminalCell::with_grapheme(g, style, false)
    }
}

impl Default for TerminalCell {
    fn default() -> (c: TerminalCell)
        ensures
            c@ == blank_cell(default_style()),
    {
        TerminalCell::blank_with_style(&CellStyle::default_style())
    }
}

} // verus!
