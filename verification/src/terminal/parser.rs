//! Small ANSI/VTE parser for the terminal model.
//!
//! Supported: printable text (with wide characters), LF, CR, backspace, tab,
//! SGR colors and styles, and the erase-display command.
use vstd::prelude::*;
use vstd::utf8::encode_utf8;

use crate::terminal::cell::{default_style, CellStyle, CellView};
use crate::terminal::color::{ansi_palette, TerminalColor};
use crate::terminal::grid::{GridView, TerminalGrid};
use crate::terminal::input::{ControlKey, TerminalInputEvent};
use crate::text::{decimal_u16, is_ascii_digit_char, is_control_char, parse_decimal_u16, lossy_text};

verus! {

/// The display width `unicode-width` reports for `c` (`None` for control characters).
pub uninterp spec fn unicode_char_width(c: char) -> Option<usize>;

/// `UnicodeWidthChar::width` of the `unicode-width` crate. Its result is named by
/// `unicode_char_width`; the crate's source also shows that exactly the C0/C1
/// control characters get `None`, that printable ASCII is one column wide and that
/// no character is wider than three columns.
#[verifier::external_body]
fn char_width(c: char) -> (w: Option<usize>)
    ensures
        w == unicode_char_width(c),
        w.is_none() == is_control_char(c),
        (0x20 <= (c as u32) && (c as u32) < 0x7f) ==> w == Some(1usize),
        w matches Some(n) ==> n <= 3,
{
    unicode_width::UnicodeWidthChar::width(c)
}

/// Columns a printable character occupies: its Unicode width, at least one.
pub open spec fn display_width(c: char) -> nat {
    match unicode_char_width(c) {
        Some(w) => if w == 0 {
            1
        } else {
            w as nat
        },
        None => 1,
    }
}

#[derive(Debug, Clone, Copy, PartialEq, Eq, Structural)]
pub enum ParserState {
    /// Plain text.
    Ground,
    /// After ESC.
    Escape,
    /// Inside a CSI sequence, collecting parameters.
    Csi,
}

/// Mathematical model of the parser.
pub struct ParserView {
    pub style: CellStyle,
    pub state: ParserState,
    /// Parameter characters of the CSI sequence being read.
    pub params: Seq<char>,
}

/// Characters that continue a CSI parameter list.
pub open spec fn is_csi_param(c: char) -> bool {
    is_ascii_digit_char(c) || c == ';' || c == '?' || c == ':'
}

/// `s` split at every `sep`, like `str::split` (always at least one piece).
pub open spec fn split_on(s: Seq<char>, sep: char) -> Seq<Seq<char>>
    decreases s.len(),
{
    if s.len() == 0 {
        seq![Seq::empty()]
    } else {
        let pieces = split_on(s.drop_last(), sep);
        if s.last() == sep {
            pieces.push(Seq::empty())
        } else {
            pieces.update(pieces.len() - 1, pieces.last().push(s.last()))
        }
    }
}

pub proof fn lemma_split_nonempty(s: Seq<char>, sep: char)
    ensures
        split_on(s, sep).len() >= 1,
    decreases s.len(),
{
    if s.len() > 0 {
        lemma_split_nonempty(s.drop_last(), sep);
    }
}

/// `str::parse::<u16>()` on a parameter, with 0 for anything it rejects.
pub open spec fn parse_u16_or_zero(s: Seq<char>) -> u16 {
    match decimal_u16(s) {
        Some(v) => v,
        None => 0,
    }
}

/// The numeric SGR codes of a parameter string; an empty string means reset.
pub open spec fn sgr_codes(params: Seq<char>) -> Seq<u16> {
    if params.len() == 0 {
        seq![0u16]
    } else {
        split_on(params, ';').map_values(|piece: Seq<char>| parse_u16_or_zero(piece))
    }
}

/// One SGR code applied to a style (the extended-color form is handled by `apply_sgr_from`).
pub open spec fn sgr_single(style: CellStyle, code: u16) -> CellStyle {
    if code == 0 {
        default_style()
    } else if code == 1 {
        CellStyle { bold: true, ..style }
    } else if code == 3 {
        CellStyle { italic: true, ..style }
    } else if code == 4 {
        CellStyle { underline: true, ..style }
    } else if code == 22 {
        CellStyle { bold: false, ..style }
    } else if code == 23 {
        CellStyle { italic: false, ..style }
    } else if code == 24 {
        CellStyle { underline: false, ..style }
    } else if 30 <= code <= 37 {
        CellStyle { foreground: ansi_palette((code - 30) as u8), ..style }
    } else if code == 39 {
        CellStyle { foreground: default_style().foreground, ..style }
    } else if 40 <= code <= 47 {
        CellStyle { background: ansi_palette((code - 40) as u8), ..style }
    } else if code == 49 {
        CellStyle { background: default_style().background, ..style }
    } else if 90 <= code <= 97 {
        CellStyle { foreground: ansi_palette((code - 90 + 8) as u8), ..style }
    } else if 100 <= code <= 107 {
        CellStyle { background: ansi_palette((code - 100 + 8) as u8), ..style }
    } else {
        style
    }
}

/// A 24-bit color channel from an SGR argument, clamped to 255.
pub open spec fn channel(v: u16) -> u8 {
    if v > 255 {
        255
    } else {
        v as u8
    }
}

/// Applies `codes[i..]` to `style`, left to right. `38;2;r;g;b` and `48;2;r;g;b`
/// set a 24-bit foreground or background and consume their four arguments.
pub open spec fn apply_sgr_from(style: CellStyle, codes: Seq<u16>, i: nat) -> CellStyle
    decreases codes.len() - i,
{
    if i >= codes.len() {
        style
    } else {
        let code = codes[i as int];
        if (code == 38 || code == 48) && i + 4 < codes.len() && codes[i + 1int] == 2 {
            let color = TerminalColor {
                red: channel(codes[i + 2int]),
                green: channel(codes[i + 3int]),
                blue: channel(codes[i + 4int]),
            };
            let next = if code == 38 {
                CellStyle { foreground: color, ..style }
            } else {
                CellStyle { background: color, ..style }
            };
            apply_sgr_from(next, codes, i + 5)
        } else {
            apply_sgr_from(sgr_single(style, code), codes, i + 1)
        }
    }
}

/// SGR `38;2;r;g;b` sets the foreground to the 24-bit color (each channel
/// clamped to 255) and `48;2;r;g;b` the background, each leaving the other
/// color and the attributes as they were.
pub proof fn law_truecolor_sgr(style: CellStyle, r: u16, g: u16, b: u16)
    ensures
        ({
            let fg = apply_sgr_from(style, seq![38u16, 2u16, r, g, b], 0);
            let bg = apply_sgr_from(style, seq![48u16, 2u16, r, g, b], 0);
            &&& fg.foreground.red == (if r > 255 { 255 } else { r }) as u8
            &&& fg.foreground.green == (if g > 255 { 255 } else { g }) as u8
            &&& fg.foreground.blue == (if b > 255 { 255 } else { b }) as u8
            &&& fg.background == style.background
            &&& bg.background.red == (if r > 255 { 255 } else { r }) as u8
            &&& bg.background.green == (if g > 255 { 255 } else { g }) as u8
            &&& bg.background.blue == (if b > 255 { 255 } else { b }) as u8
            &&& bg.foreground == style.foreground
            &&& fg.bold == style.bold && fg.italic == style.italic && fg.underline == style.underline
            &&& bg.bold == style.bold && bg.italic == style.italic && bg.underline == style.underline
        }),
{
    let f = seq![38u16, 2u16, r, g, b];
    let k = seq![48u16, 2u16, r, g, b];
    assert(f[0] == 38u16 && f[1] == 2u16 && f[2] == r && f[3] == g && f[4] == b);
    assert(k[0] == 48u16 && k[1] == 2u16 && k[2] == r && k[3] == g && k[4] == b);
    let cf = CellStyle {
        foreground: TerminalColor { red: channel(r), green: channel(g), blue: channel(b) },
        ..style
    };
    let ck = CellStyle {
        background: TerminalColor { red: channel(r), green: channel(g), blue: channel(b) },
        ..style
    };
    assert(apply_sgr_from(cf, f, 5) == cf);
    assert(apply_sgr_from(ck, k, 5) == ck);
}

/// Codes placed after others are read as they would be on their own.
proof fn lemma_sgr_shift(style: CellStyle, pre: Seq<u16>, rest: Seq<u16>, k: nat)
    ensures
        apply_sgr_from(style, pre + rest, pre.len() + k) == apply_sgr_from(style, rest, k),
    decreases rest.len() - k,
{
    let c = pre + rest;
    let i: int = (pre.len() + k) as int;
    let k2: int = k as int;
    if k < rest.len() {
        let code = rest[k as int];
        assert(c[i] == code);
        if k + 4 < rest.len() {
            assert(c[i + 1] == rest[k2 + 1]);
            assert(c[i + 2] == rest[k2 + 2]);
            assert(c[i + 3] == rest[k2 + 3]);
            assert(c[i + 4] == rest[k2 + 4]);
        }
        if (code == 38 || code == 48) && k + 4 < rest.len() && rest[k2 + 1] == 2 {
            let color = TerminalColor {
                red: channel(rest[k2 + 2]),
                green: channel(rest[k2 + 3]),
                blue: channel(rest[k2 + 4]),
            };
            let next = if code == 38 {
                CellStyle { foreground: color, ..style }
            } else {
                CellStyle { background: color, ..style }
            };
            lemma_sgr_shift(next, pre, rest, k + 5);
        } else {
            lemma_sgr_shift(sgr_single(style, code), pre, rest, k + 1);
        }
    }
}

/// A 24-bit background request followed by more codes: the background is set
/// to the clamped color and the rest of the codes apply to that style, so the
/// request takes exactly its five codes.
pub proof fn law_truecolor_background_then_rest(style: CellStyle, r: u16, g: u16, b: u16, rest: Seq<u16>)
    ensures
        apply_sgr_from(style, seq![48u16, 2u16, r, g, b] + rest, 0) == apply_sgr_from(
            (CellStyle {
                background: TerminalColor {
                    red: (if r > 255 { 255 } else { r }) as u8,
                    green: (if g > 255 { 255 } else { g }) as u8,
                    blue: (if b > 255 { 255 } else { b }) as u8,
                },
                ..style
            }),
            rest,
            0,
        ),
{
    let pre = seq![48u16, 2u16, r, g, b];
    let c = pre + rest;
    assert(c[0] == 48u16 && c[1] == 2u16 && c[2] == r && c[3] == g && c[4] == b);
    let next = CellStyle {
        background: TerminalColor { red: channel(r), green: channel(g), blue: channel(b) },
        ..style
    };
    lemma_sgr_shift(next, pre, rest, 0);
}

/// A 24-bit foreground request followed by more codes: the foreground is set
/// to the clamped color and the rest of the codes apply to that style.
pub proof fn law_truecolor_foreground_then_rest(style: CellStyle, r: u16, g: u16, b: u16, rest: Seq<u16>)
    ensures
        apply_sgr_from(style, seq![38u16, 2u16, r, g, b] + rest, 0) == apply_sgr_from(
            (CellStyle {
                foreground: TerminalColor {
                    red: (if r > 255 { 255 } else { r }) as u8,
                    green: (if g > 255 { 255 } else { g }) as u8,
                    blue: (if b > 255 { 255 } else { b }) as u8,
                },
                ..style
            }),
            rest,
            0,
        ),
{
    let pre = seq![38u16, 2u16, r, g, b];
    let c = pre + rest;
    assert(c[0] == 38u16 && c[1] == 2u16 && c[2] == r && c[3] == g && c[4] == b);
    let next = CellStyle {
        foreground: TerminalColor { red: channel(r), green: channel(g), blue: channel(b) },
        ..style
    };
    lemma_sgr_shift(next, pre, rest, 0);
}

/// A code other than a 24-bit request is applied on its own, then the rest.
pub proof fn law_sgr_codes_apply_in_order(style: CellStyle, code: u16, rest: Seq<u16>)
    requires
        !((code == 38 || code == 48) && rest.len() >= 4 && rest[0] == 2),
    ensures
        apply_sgr_from(style, seq![code] + rest, 0) == apply_sgr_from(sgr_single(style, code), rest, 0),
{
    let pre = seq![code];
    let c = pre + rest;
    assert(c[0] == code);
    if rest.len() >= 4 {
        assert(c[1] == rest[0]);
    }
    lemma_sgr_shift(sgr_single(style, code), pre, rest, 0);
}

/// Parameter strings for which `ESC [ .. J` clears the screen.
pub open spec fn clears_screen(params: Seq<char>) -> bool {
    params == Seq::<char>::empty() || params == seq!['0'] || params == seq!['2'] || params
        == seq!['3']
}

/// A completed CSI sequence applied to parser style and grid.
pub open spec fn apply_csi(p: ParserView, g: GridView, params: Seq<char>, final_char: char) -> (
    ParserView,
    GridView,
) {
    if final_char == 'm' {
        (ParserView { style: apply_sgr_from(p.style, sgr_codes(params), 0), ..p }, g)
    } else if final_char == 'J' && clears_screen(params) {
        (p, g.clear_screen(p.style))
    } else {
        (p, g)
    }
}

/// One input character: the parser's transition and its effect on the grid.
pub open spec fn step(p: ParserView, g: GridView, c: char) -> (ParserView, GridView) {
    match p.state {
        ParserState::Ground => {
            if c == '\x1b' {
                (ParserView { state: ParserState::Escape, ..p }, g)
            } else if c == '\n' {
                (p, g.newline(p.style))
            } else if c == '\r' {
                (p, g.carriage_return())
            } else if c == '\x08' {
                (p, g.backspace())
            } else if c == '\t' {
                (p, g.tab(p.style))
            } else if !is_control_char(c) {
                (p, g.write_glyph(seq![c], display_width(c), p.style))
            } else {
                (p, g)
            }
        },
        ParserState::Escape => {
            if c == '[' {
                (ParserView { state: ParserState::Csi, params: Seq::empty(), ..p }, g)
            } else {
                (ParserView { state: ParserState::Ground, ..p }, g)
            }
        },
        ParserState::Csi => {
            if is_csi_param(c) {
                (ParserView { params: p.params.push(c), ..p }, g)
            } else {
                apply_csi(
                    ParserView { state: ParserState::Ground, params: Seq::empty(), ..p },
                    g,
                    p.params,
                    c,
                )
            }
        },
    }
}

/// The characters of `s` fed to the parser one after another.
pub open spec fn run(p: ParserView, g: GridView, s: Seq<char>) -> (ParserView, GridView)
    decreases s.len(),
{
    if s.len() == 0 {
        (p, g)
    } else {
        let (p1, g1) = run(p, g, s.drop_last());
        step(p1, g1, s.last())
    }
}

/// Escape-sequence parser that renders into a `TerminalGrid`.
#[derive(Debug, Clone)]
pub struct TerminalParser {
    style: CellStyle,
    state: ParserState,
    params: Vec<char>,
}

impl View for TerminalParser {
    type V = ParserView;

    closed spec fn view(&self) -> ParserView {
        ParserView { style: self.style, state: self.state, params: self.params@ }
    }
}

/// The parser a terminal starts with.
pub open spec fn initial_parser() -> ParserView {
    ParserView { style: default_style(), state: ParserState::Ground, params: Seq::empty() }
}

/// `parse_u16_or_zero` computed on a parameter.
fn parse_param(s: &Vec<char>) -> (v: u16)
    ensures
        v == parse_u16_or_zero(s@),
{
    assert(s@.subrange(0, s@.len() as int) =~= s@);
    match parse_decimal_u16(s, 0, s.len()) {
        Some(v) => v,
        None => 0,
    }
}

/// `sgr_codes` computed on a parameter string.
fn sgr_code_list(params: &Vec<char>) -> (codes: Vec<u16>)
    ensures
        codes@ == sgr_codes(params@),
{
    let mut codes: Vec<u16> = Vec::new();
    if params.len() == 0 {
        codes.push(0);
        assert(codes@ =~= seq![0u16]);
        return codes;
    }
    let mut current: Vec<char> = Vec::new();
    let mut i: usize = 0;
    proof {
        assert(params@.take(0) =~= Seq::<char>::empty());
        assert(codes@ =~= Seq::<Seq<char>>::empty().map_values(|piece: Seq<char>| parse_u16_or_zero(piece)));
    }
    while i < params.len()
        invariant
            i <= params@.len(),
            split_on(params@.take(i as int), ';').len() >= 1,
            current@ == split_on(params@.take(i as int), ';').last(),
            codes@ == split_on(params@.take(i as int), ';').drop_last().map_values(
                |piece: Seq<char>| parse_u16_or_zero(piece),
            ),
        decreases params.len() - i,
    {
        let c = params[i];
        let ghost before = split_on(params@.take(i as int), ';');
        assert(params@.take(i + 1).drop_last() =~= params@.take(i as int));
        if c == ';' {
            let v = parse_param(&current);
            codes.push(v);
            current = Vec::new();
            proof {
                let after = before.push(Seq::<char>::empty());
                assert(split_on(params@.take(i + 1), ';') == after);
                assert(after.drop_last() =~= before);
                assert(codes@ =~= after.drop_last().map_values(
                    |piece: Seq<char>| parse_u16_or_zero(piece),
                ));
            }
        } else {
            current.push(c);
            proof {
                let after = before.update(before.len() - 1, before.last().push(c));
                assert(split_on(params@.take(i + 1), ';') == after);
                assert(after.drop_last() =~= before.drop_last());
            }
        }
        i = i + 1;
    }
    assert(params@.take(params@.len() as int) =~= params@);
    let v = parse_param(&current);
    let ghost pieces = split_on(params@, ';');
    codes.push(v);
    assert(pieces =~= pieces.drop_last().push(pieces.last()));
    assert(codes@ =~= pieces.map_values(|piece: Seq<char>| parse_u16_or_zero(piece)));
    codes
}

impl TerminalParser {
    /// A parser in the ground state with the default style.
    pub fn new() -> (p: TerminalParser)
        ensures
            p@ == initial_parser(),
    {
        TerminalParser {
            style: CellStyle::default_style(),
            state: ParserState::Ground,
            params: Vec::new(),
        }
    }

    /// The style new glyphs are drawn with.
    pub fn style(&self) -> (s: CellStyle)
        ensures
            s == self@.style,
    {
        self.style
    }

    fn apply_single(style: CellStyle, code: u16) -> (s: CellStyle)
        ensures
            s == sgr_single(style, code),
    {
        let mut s = style;
        if code == 0 {
            s = CellStyle::default_style();
        } else if code == 1 {
            s.bold = true;
        } else if code == 3 {
            s.italic = true;
        } else if code == 4 {
            s.underline = true;
        } else if code == 22 {
            s.bold = false;
        } else if code == 23 {
            s.italic = false;
        } else if code == 24 {
            s.underline = false;
        } else if 30 <= code && code <= 37 {
            s.foreground = TerminalColor::ansi((code - 30) as u8);
        } else if code == 39 {
            s.foreground = TerminalColor::white();
        } else if 40 <= code && code <= 47 {
            s.background = TerminalColor::ansi((code - 40) as u8);
        } else if code == 49 {
            s.background = TerminalColor::black();
        } else if 90 <= code && code <= 97 {
            s.foreground = TerminalColor::ansi((code - 90 + 8) as u8);
        } else if 100 <= code && code <= 107 {
            s.background = TerminalColor::ansi((code - 100 + 8) as u8);
        }
        s
    }

    /// Applies an SGR parameter string to the current style.
    fn apply_sgr(&mut self, params: &Vec<char>)
        ensures
            final(self)@ == (ParserView {
                style: apply_sgr_from(old(self)@.style, sgr_codes(params@), 0),
                ..old(self)@
            }),
    {
        let codes = sgr_code_list(params);
        let ghost start = self.style;
        let mut index: usize = 0;
        while index < codes.len()
            invariant
                index <= codes@.len(),
                apply_sgr_from(self.style, codes@, index as nat) == apply_sgr_from(
                    start,
                    codes@,
                    0,
                ),
                self.state == old(self).state,
                self.params@ == old(self).params@,
            decreases codes.len() - index,
        {
            let code = codes[index];
            if (code == 38 || code == 48) && codes.len() - index > 4 && codes[index + 1] == 2 {
                let r = codes[index + 2];
                let g = codes[index + 3];
                let b = codes[index + 4];
                let color = TerminalColor::rgb(
                    if r > 255 { 255 } else { r as u8 },
                    if g > 255 { 255 } else { g as u8 },
                    if b > 255 { 255 } else { b as u8 },
                );
                if code == 38 {
                    self.style.foreground = color;
                } else {
                    self.style.background = color;
                }
                index = index + 5;
            } else {
                self.style = TerminalParser::apply_single(self.style, code);
                index = index + 1;
            }
        }
    }

    fn apply_csi(&mut self, grid: &mut TerminalGrid, params: &Vec<char>, final_char: char)
        requires
            old(grid).wf(),
        ensures
            final(grid).wf(),
            (final(self)@, final(grid)@) == apply_csi(old(self)@, old(grid)@, params@, final_char),
    {
        if final_char == 'm' {
            self.apply_sgr(params);
        } else if final_char == 'J' {
            let clears = params.len() == 0 || (params.len() == 1 && (params[0] == '0' || params[0]
                == '2' || params[0] == '3'));
            proof {
                if params@.len() == 1 {
                    if params@[0] == '0' {
                        assert(params@ =~= seq!['0']);
                    } else if params@[0] == '2' {
                        assert(params@ =~= seq!['2']);
                    } else if params@[0] == '3' {
                        assert(params@ =~= seq!['3']);
                    }
                }
                if params@.len() == 0 {
                    assert(params@ =~= Seq::<char>::empty());
                }
            }
            if clears {
                grid.clear_screen(&self.style);
            }
        }
    }

    /// Feeds one character.
    fn advance_char(&mut self, grid: &mut TerminalGrid, c: char)
        requires
            old(grid).wf(),
        ensures
            final(grid).wf(),
            (final(self)@, final(grid)@) == step(old(self)@, old(grid)@, c),
    {
        match self.state {
            ParserState::Ground => {
                if c == '\x1b' {
                    self.state = ParserState::Escape;
                } else if c == '\n' {
                    grid.newline(&self.style);
                } else if c == '\r' {
                    grid.carriage_return();
                } else if c == '\x08' {
                    grid.backspace();
                } else if c == '\t' {
                    grid.tab(&self.style);
                } else if !crate::text::is_control(c) {
                    let w = match char_width(c) {
                        Some(n) => if n == 0 {
                            1
                        } else {
                            n
                        },
                        None => 1,
                    };
                    grid.write_grapheme(crate::text::string_of_char(c), w, &self.style);
                }
            },
            ParserState::Escape => {
                if c == '[' {
                    self.state = ParserState::Csi;
                    self.params = Vec::new();
                } else {
                    self.state = ParserState::Ground;
                }
            },
            ParserState::Csi => {
                if crate::text::is_ascii_digit(c) || c == ';' || c == '?' || c == ':' {
                    self.params.push(c);
                } else {
                    let mut params: Vec<char> = Vec::new();
                    std::mem::swap(&mut params, &mut self.params);
                    self.state = ParserState::Ground;
                    self.apply_csi(grid, &params, c);
                }
            },
        }
    }

    /// Feeds a sequence of characters.
    pub fn advance_chars(&mut self, grid: &mut TerminalGrid, chars: &Vec<char>)
        requires
            old(grid).wf(),
        ensures
            final(grid).wf(),
            (final(self)@, final(grid)@) == run(old(self)@, old(grid)@, chars@),
    {
        let mut i: usize = 0;
        while i < chars.len()
            invariant
                i <= chars@.len(),
                grid.wf(),
                (self@, grid@) == run(old(self)@, old(grid)@, chars@.take(i as int)),
            decreases chars.len() - i,
        {
            assert(chars@.take(i + 1).drop_last() =~= chars@.take(i as int));
            self.advance_char(grid, chars[i]);
            i = i + 1;
        }
        assert(chars@.take(chars@.len() as int) =~= chars@);
    }

    /// Decodes `bytes` (invalid UTF-8 becomes U+FFFD) and feeds the characters.
    pub fn advance(&mut self, grid: &mut TerminalGrid, bytes: &[u8])
        requires
            old(grid).wf(),
        ensures
            final(grid).wf(),
            (final(self)@, final(grid)@) == run(old(self)@, old(grid)@, lossy_text(bytes@)),
    {
        let text = crate::text::decode_lossy(bytes);
        let chars = crate::text::chars_of(text.as_str());
        self.advance_chars(grid, &chars);
    }

    /// Feeds the text of a string slice.
    pub fn advance_str(&mut self, grid: &mut TerminalGrid, text: &str)
        requires
            old(grid).wf(),
        ensures
            final(grid).wf(),
            (final(self)@, final(grid)@) == run(old(self)@, old(grid)@, text@),
    {
        let chars = crate::text::chars_of(text);
        self.advance_chars(grid, &chars);
    }

    /// Applies a local input event to the model: text and pastes are rendered,
    /// Enter/Backspace/Tab/Escape act as their control characters, and a resize
    /// replaces the grid with a blank one of the new size.
    pub fn apply_input(&mut self, grid: &mut TerminalGrid, event: &TerminalInputEvent)
        requires
            old(grid).wf(),
        ensures
            final(grid).wf(),
            event_bytes(*event) matches Some(b) ==> (final(self)@, final(grid)@) == run(
                old(self)@,
                old(grid)@,
                lossy_text(b),
            ),
            match *event {
                TerminalInputEvent::PrintableText { text } => (final(self)@, final(grid)@) == run(
                    old(self)@,
                    old(grid)@,
                    text@,
                ),
                TerminalInputEvent::ControlKey { key } => match key {
                    ControlKey::Enter => (final(self)@, final(grid)@) == step(
                        old(self)@,
                        old(grid)@,
                        '\n',
                    ),
                    ControlKey::Backspace => (final(self)@, final(grid)@) == step(
                        old(self)@,
                        old(grid)@,
                        '\x08',
                    ),
                    ControlKey::Tab => (final(self)@, final(grid)@) == step(
                        old(self)@,
                        old(grid)@,
                        '\t',
                    ),
                    ControlKey::Escape => (final(self)@, final(grid)@) == step(
                        old(self)@,
                        old(grid)@,
                        '\x1b',
                    ),
                    ControlKey::Delete => final(self)@ == old(self)@ && final(grid)@ == old(grid)@,
                },
                TerminalInputEvent::Paste { bytes, .. } => (final(self)@, final(grid)@) == run(
                    old(self)@,
                    old(grid)@,
                    lossy_text(bytes@),
                ),
                TerminalInputEvent::Resize { columns, rows } => final(self)@ == old(self)@
                    && final(grid)@.columns == columns && final(grid)@.rows == rows
                    && final(grid)@.cells == crate::terminal::grid::blank_row(
                    default_style(),
                    rows as nat * columns as nat,
                ) && final(grid)@.cursor_column == 0 && final(grid)@.cursor_row == 0
                    && final(grid)@.scrollback.len() == 0
                    && final(grid)@.scrollback_limit == crate::terminal::grid::DEFAULT_SCROLLBACK_LIMIT,
                _ => final(self)@ == old(self)@ && final(grid)@ == old(grid)@,
            },
    {
        proof {
            if let TerminalInputEvent::PrintableText { text } = event {
                lemma_lossy_of_encoded(text@);
            }
            lemma_lossy_of_encoded(seq!['\n']);
            lemma_lossy_of_encoded(seq!['\x08']);
            lemma_lossy_of_encoded(seq!['\t']);
            lemma_lossy_of_encoded(seq!['\x1b']);
            lemma_run_one(self@, grid@, '\n');
            lemma_run_one(self@, grid@, '\x08');
            lemma_run_one(self@, grid@, '\t');
            lemma_run_one(self@, grid@, '\x1b');
        }
        match event {
            TerminalInputEvent::PrintableText { text } => self.advance_str(grid, text.as_str()),
            TerminalInputEvent::ControlKey { key } => match key {
                ControlKey::Enter => self.advance_char(grid, '\n'),
                ControlKey::Backspace => self.advance_char(grid, '\x08'),
                ControlKey::Tab => self.advance_char(grid, '\t'),
                ControlKey::Escape => self.advance_char(grid, '\x1b'),
                ControlKey::Delete => {},
            },
            TerminalInputEvent::Paste { bytes, .. } => self.advance(grid, bytes.as_slice()),
            TerminalInputEvent::Resize { columns, rows } => {
                *grid = TerminalGrid::new(*columns, *rows);
            },
            _ => {},
        }
    }
}

impl Default for TerminalParser {
    fn default() -> (p: TerminalParser)
        ensures
            p@ == initial_parser(),
    {
        TerminalParser::new()
    }
}

/// The bytes an input event hands to the parser, where it hands any: the
/// UTF-8 of typed text, pasted bytes as they are, and the UTF-8 of the control
/// character that Enter, Backspace, Tab or Escape stands for.
pub open spec fn event_bytes(e: TerminalInputEvent) -> Option<Seq<u8>> {
    match e {
        TerminalInputEvent::PrintableText { text } => Some(encode_utf8(text@)),
        TerminalInputEvent::Paste { bytes, .. } => Some(bytes@),
        TerminalInputEvent::ControlKey { key } => match key {
            ControlKey::Enter => Some(encode_utf8(seq!['\n'])),
            ControlKey::Backspace => Some(encode_utf8(seq!['\x08'])),
            ControlKey::Tab => Some(encode_utf8(seq!['\t'])),
            ControlKey::Escape => Some(encode_utf8(seq!['\x1b'])),
            ControlKey::Delete => None,
        },
        _ => None,
    }
}

/// Decoding the UTF-8 of a text gives the text back.
pub proof fn lemma_lossy_of_encoded(s: Seq<char>)
    ensures
        lossy_text(encode_utf8(s)) == s,
{
    vstd::utf8::encode_utf8_valid_utf8(s);
    vstd::utf8::encode_utf8_decode_utf8(s);
}

/// Feeding one character is one step.
pub proof fn lemma_run_one(p: ParserView, g: GridView, c: char)
    ensures
        run(p, g, seq![c]) == step(p, g, c),
{
    assert(seq![c].drop_last() =~= Seq::<char>::empty());
    assert(run(p, g, Seq::<char>::empty()) == (p, g));
    assert(seq![c].last() == c);
}

/// The control characters in the ground state. ESC only enters the escape
/// state. Line feed moves to column 0 of the next row, or at the bottom row
/// scrolls the screen up by one row and adds a blank row of the current
/// style. Carriage return moves to column 0. Backspace moves one column left,
/// stopping at 0. Tab moves to the next multiple of eight, stopping at the
/// right edge. None of them changes the style or the screen's size.
pub proof fn law_ground_controls(p: ParserView, g: GridView)
    requires
        p.state == ParserState::Ground,
        g.wf(),
        g.rows > 0,
    ensures
        step(p, g, '\x1b') == ((ParserView { state: ParserState::Escape, ..p }), g),
        ({
            let n = step(p, g, '\n').1;
            &&& step(p, g, '\n').0 == p
            &&& n.cursor_column == 0 && n.columns == g.columns && n.rows == g.rows
            &&& g.cursor_row + 1 < g.rows ==> n.cursor_row == g.cursor_row + 1 && n.cells == g.cells
                && n.scrollback == g.scrollback
            &&& g.cursor_row + 1 == g.rows ==> n.cursor_row == g.cursor_row && n.cells == g.cells.skip(
                g.columns as int,
            ) + Seq::new(g.columns, |i: int| CellView { grapheme: seq![' '], style: p.style, wide_continuation: false })
                && (g.scrollback_limit > 0 ==> n.scrollback.last() == g.cells.take(g.columns as int))
        }),
        step(p, g, '\r') == (p, (GridView { cursor_column: 0, ..g })),
        ({
            let n = step(p, g, '\x08').1;
            &&& step(p, g, '\x08').0 == p
            &&& n == (GridView {
                cursor_column: if g.cursor_column > 0 { (g.cursor_column - 1) as nat } else { 0 },
                ..g
            })
        }),
        ({
            let n = step(p, g, '\t').1;
            let next = (g.cursor_column / 8 + 1) * 8;
            &&& step(p, g, '\t').0 == p
            &&& n.cursor_row == g.cursor_row && n.rows == g.rows && n.columns == g.columns
            &&& n.cursor_column == if next < g.columns { next } else { g.columns }
        }),
{
    let c = g.cursor_column;
    assert((c / 8 + 1) * 8 > c) by (nonlinear_arith);
    if g.cursor_row + 1 == g.rows && g.scrollback_limit > 0 {
        let top = g.cells.take(g.columns as int);
        if g.scrollback.len() >= g.scrollback_limit {
            assert(g.scrollback.drop_first().push(top).last() == top);
        } else {
            assert(g.scrollback.push(top).last() == top);
        }
    }
}

/// A printable character that fits on the current row is drawn at the
/// cursor in the current style, and the cursor moves past it on the same row.
pub proof fn law_printable_at_cursor(p: ParserView, g: GridView, c: char)
    requires
        p.state == ParserState::Ground,
        !is_control_char(c),
        g.wf(),
        g.rows > 0,
        g.columns > 0,
        g.cursor_column + g.glyph_width(display_width(c)) <= g.columns,
    ensures
        ({
            let n = step(p, g, c).1;
            &&& step(p, g, c).0 == p
            &&& n.cells[g.index_of(g.cursor_column, g.cursor_row)] == (CellView {
                grapheme: seq![c],
                style: p.style,
                wide_continuation: false,
            })
            &&& n.cursor_row == g.cursor_row
            &&& n.cursor_column == g.cursor_column + g.glyph_width(display_width(c))
            &&& n.cells.len() == g.cells.len()
            &&& n.scrollback == g.scrollback
        }),
{
    assert(c != '\x1b' && c != '\n' && c != '\r' && c != '\x08' && c != '\t');
    crate::terminal::grid::lemma_index_fits(
        g.cursor_row as int,
        g.rows as int,
        g.columns as int,
        g.cursor_column as int,
    );
    assert(g.index_of(g.cursor_column, g.cursor_row) < g.cells.len()) by (nonlinear_arith)
        requires
            g.cursor_column < g.columns,
            g.cursor_row < g.rows,
            g.cells.len() == g.rows * g.columns,
            g.index_of(g.cursor_column, g.cursor_row) == g.cursor_row * g.columns + g.cursor_column,
    ;
}

/// A printable character that does not fit on the current row wraps: it is
/// drawn at column 0 of the next row (of the same bottom row, after the screen
/// scrolls up), and the cursor moves past it.
pub proof fn law_printable_wraps(p: ParserView, g: GridView, c: char)
    requires
        p.state == ParserState::Ground,
        !is_control_char(c),
        g.wf(),
        g.rows > 0,
        g.columns > 0,
        g.cursor_column + g.glyph_width(display_width(c)) > g.columns,
    ensures
        ({
            let n = step(p, g, c).1;
            let row: nat = if g.cursor_row + 1 < g.rows { g.cursor_row + 1 } else { g.cursor_row };
            &&& step(p, g, c).0 == p
            &&& n.cursor_row == row
            &&& n.cursor_column == g.glyph_width(display_width(c))
            &&& n.cells[(row * g.columns) as int] == (CellView {
                grapheme: seq![c],
                style: p.style,
                wide_continuation: false,
            })
        }),
{
    assert(c != '\x1b' && c != '\n' && c != '\r' && c != '\x08' && c != '\t');
    let row: nat = if g.cursor_row + 1 < g.rows { g.cursor_row + 1 } else { g.cursor_row };
    assert(row * g.columns < g.rows * g.columns) by (nonlinear_arith)
        requires
            row < g.rows,
            g.columns > 0,
    ;
    assert(g.rows * g.columns >= g.columns) by (nonlinear_arith)
        requires
            g.rows > 0,
    ;
    let base = g.newline(p.style);
    if g.cursor_row + 1 >= g.rows {
        assert(g.cells.skip(g.columns as int).len() == g.cells.len() - g.columns);
        assert(base.cells.len() == g.cells.len());
    }
}

/// `ESC [ J` (and the `0`, `2`, `3` forms) blanks every cell in the current
/// style and leaves the cursor, the scrollback and the parser's style alone.
pub proof fn law_clear_screen(p: ParserView, g: GridView, params: Seq<char>)
    requires
        clears_screen(params),
    ensures
        ({
            let r = apply_csi(p, g, params, 'J');
            &&& r.0 == p
            &&& r.1.cells.len() == g.cells.len()
            &&& forall|i: int| 0 <= i < g.cells.len() ==> #[trigger] r.1.cells[i] == (CellView {
                grapheme: seq![' '],
                style: p.style,
                wide_continuation: false,
            })
            &&& r.1.cursor_column == g.cursor_column && r.1.cursor_row == g.cursor_row
            &&& r.1.scrollback == g.scrollback
        }),
{
}

/// The single SGR codes: 0 resets the style; 1, 3, 4 set bold, italic,
/// underline and 22, 23, 24 clear them; 30-37 and 90-97 pick a foreground
/// from the palette (normal, then bright), 40-47 and 100-107 a background;
/// 39 and 49 restore the default foreground and background. Each touches
/// only its own part of the style.
pub proof fn law_sgr_single(style: CellStyle, code: u16)
    ensures
        code == 0 ==> sgr_single(style, code) == default_style(),
        code == 1 ==> sgr_single(style, code) == (CellStyle { bold: true, ..style }),
        code == 3 ==> sgr_single(style, code) == (CellStyle { italic: true, ..style }),
        code == 4 ==> sgr_single(style, code) == (CellStyle { underline: true, ..style }),
        code == 22 ==> sgr_single(style, code) == (CellStyle { bold: false, ..style }),
        code == 23 ==> sgr_single(style, code) == (CellStyle { italic: false, ..style }),
        code == 24 ==> sgr_single(style, code) == (CellStyle { underline: false, ..style }),
        30 <= code <= 37 ==> sgr_single(style, code) == (CellStyle {
            foreground: ansi_palette((code - 30) as u8),
            ..style
        }),
        90 <= code <= 97 ==> sgr_single(style, code) == (CellStyle {
            foreground: ansi_palette((code - 82) as u8),
            ..style
        }),
        40 <= code <= 47 ==> sgr_single(style, code) == (CellStyle {
            background: ansi_palette((code - 40) as u8),
            ..style
        }),
        100 <= code <= 107 ==> sgr_single(style, code) == (CellStyle {
            background: ansi_palette((code - 92) as u8),
            ..style
        }),
        code == 39 ==> sgr_single(style, code) == (CellStyle {
            foreground: default_style().foreground,
            ..style
        }),
        code == 49 ==> sgr_single(style, code) == (CellStyle {
            background: default_style().background,
            ..style
        }),
        !(code <= 1 || code == 3 || code == 4 || 22 <= code <= 24 || 30 <= code <= 49 || 90 <= code
            <= 97 || 100 <= code <= 107) ==> sgr_single(style, code) == style,
{
}

/// Feeding text never changes the screen's size or its scrollback limit.
pub proof fn law_run_keeps_screen_size(p: ParserView, g: GridView, s: Seq<char>)
    ensures
        run(p, g, s).1.rows == g.rows,
        run(p, g, s).1.columns == g.columns,
        run(p, g, s).1.scrollback_limit == g.scrollback_limit,
    decreases s.len(),
{
    if s.len() > 0 {
        law_run_keeps_screen_size(p, g, s.drop_last());
    }
}

} // verus!
