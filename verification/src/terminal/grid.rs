//! Terminal screen grid with a cursor and a bounded scrollback buffer.
use vstd::prelude::*;

use crate::terminal::cell::{blank_cell, default_style, glyph_cell, CellStyle, CellView, TerminalCell};
use crate::text::{push_all, string_of_prefix};

verus! {

/// Scrollback rows kept by `TerminalGrid::new`.
pub const DEFAULT_SCROLLBACK_LIMIT: usize = 1000;

/// The grid's cells, in row-major order, as cell models.
pub open spec fn cells_view(cells: Seq<TerminalCell>) -> Seq<CellView> {
    cells.map_values(|c: TerminalCell| c@)
}

/// The scrollback rows as sequences of cell models.
pub open spec fn rows_view(rows: Seq<Vec<TerminalCell>>) -> Seq<Seq<CellView>> {
    rows.map_values(|r: Vec<TerminalCell>| cells_view(r@))
}

/// `n` blank cells drawn with `style`.
pub open spec fn blank_row(style: CellStyle, n: nat) -> Seq<CellView> {
    Seq::new(n, |i: int| blank_cell(style))
}

/// Mathematical model of a terminal grid.
pub struct GridView {
    pub columns: nat,
    pub rows: nat,
    /// Row-major cells of the visible screen.
    pub cells: Seq<CellView>,
    pub cursor_column: nat,
    pub cursor_row: nat,
    /// Rows that scrolled off the top, oldest first.
    pub scrollback: Seq<Seq<CellView>>,
    pub scrollback_limit: nat,
}

pub proof fn lemma_row_offset(row: nat, rows: nat, columns: nat)
    requires
        row < rows,
    ensures
        row * columns + columns <= rows * columns,
{
    assert(row * columns + columns <= rows * columns) by (nonlinear_arith)
        requires
            row < rows,
    ;
}

pub proof fn lemma_index_fits(row: int, rows: int, columns: int, column: int)
    requires
        0 <= row < rows,
        0 <= column <= columns,
    ensures
        0 <= row * columns,
        row * columns + column <= rows * columns,
        row * columns + columns <= rows * columns,
{
    assert(row * columns + columns <= rows * columns && 0 <= row * columns) by (nonlinear_arith)
        requires
            0 <= row < rows,
            0 <= columns,
    ;
}

pub proof fn lemma_screen_size_fits(rows: u16, columns: u16)
    ensures
        rows as nat * columns as nat <= usize::MAX,
{
    assert(rows as nat * columns as nat <= 65535 * 65535) by (nonlinear_arith)
        requires
            rows <= 65535,
            columns <= 65535,
    ;
}

impl GridView {
    /// The grid invariant: a full screen of cells and a cursor inside it.
    /// The cursor column may equal `columns`, meaning the next glyph wraps first.
    pub open spec fn wf(self) -> bool {
        &&& self.cells.len() == self.rows * self.columns
        &&& self.cursor_column <= self.columns
        &&& (self.rows > 0 ==> self.cursor_row < self.rows)
        &&& (self.rows == 0 ==> self.cursor_row == 0)
        &&& self.scrollback.len() <= self.scrollback_limit
    }

    /// Index of a cell in the row-major sequence.
    pub open spec fn index_of(self, column: nat, row: nat) -> int {
        (row * self.columns + column) as int
    }

    /// The cells of one visible row.
    pub open spec fn row_cells(self, row: nat) -> Seq<CellView> {
        self.cells.subrange(self.index_of(0, row), self.index_of(0, row) + self.columns)
    }

    /// Moves the first row into the scrollback and appends a blank row at the bottom.
    pub open spec fn scroll_up(self, style: CellStyle) -> GridView {
        let top = self.cells.take(self.columns as int);
        let scrollback = if self.scrollback_limit == 0 {
            self.scrollback
        } else if self.scrollback.len() >= self.scrollback_limit {
            self.scrollback.drop_first().push(top)
        } else {
            self.scrollback.push(top)
        };
        GridView {
            cells: self.cells.skip(self.columns as int) + blank_row(style, self.columns),
            scrollback,
            ..self
        }
    }

    /// Line feed: column 0 of the next row, scrolling at the bottom.
    pub open spec fn newline(self, style: CellStyle) -> GridView {
        if self.rows == 0 {
            GridView { cursor_column: 0, ..self }
        } else if self.cursor_row + 1 < self.rows {
            GridView { cursor_column: 0, cursor_row: self.cursor_row + 1, ..self }
        } else {
            GridView { cursor_column: 0, ..self.scroll_up(style) }
        }
    }

    pub open spec fn carriage_return(self) -> GridView {
        GridView { cursor_column: 0, ..self }
    }

    pub open spec fn backspace(self) -> GridView {
        if self.cursor_column > 0 {
            GridView { cursor_column: (self.cursor_column - 1) as nat, ..self }
        } else {
            self
        }
    }

    /// Columns a glyph of the requested width occupies on this screen.
    pub open spec fn glyph_width(self, width: nat) -> nat {
        if width == 0 {
            1
        } else if width > self.columns {
            self.columns
        } else {
            width
        }
    }

    /// Writes a glyph at the cursor: it wraps first when it does not fit,
    /// fills continuation cells for wide glyphs and advances the cursor.
    pub open spec fn write_glyph(self, grapheme: Seq<char>, width: nat, style: CellStyle) -> GridView {
        if self.columns == 0 || self.rows == 0 {
            self
        } else {
            let w = self.glyph_width(width);
            let base = if self.cursor_column + w > self.columns {
                self.newline(style)
            } else {
                self
            };
            let start = base.index_of(base.cursor_column, base.cursor_row);
            GridView {
                cells: Seq::new(
                    base.cells.len(),
                    |i: int|
                        if i == start {
                            glyph_cell(grapheme, style, false)
                        } else if start < i < start + w {
                            glyph_cell(Seq::empty(), style, true)
                        } else {
                            base.cells[i]
                        },
                ),
                cursor_column: base.cursor_column + w,
                ..base
            }
        }
    }

    /// Horizontal tab: fills spaces up to the next multiple of eight (or the right edge).
    pub open spec fn tab(self, style: CellStyle) -> GridView {
        let next = (self.cursor_column / 8 + 1) * 8;
        let stop: nat = if next < self.columns {
            next
        } else {
            self.columns
        };
        if self.rows == 0 || self.cursor_column >= stop {
            self
        } else {
            let start = self.index_of(self.cursor_column, self.cursor_row);
            let end = self.index_of(stop, self.cursor_row);
            GridView {
                cells: Seq::new(
                    self.cells.len(),
                    |i: int|
                        if start <= i < end {
                            glyph_cell(seq![' '], style, false)
                        } else {
                            self.cells[i]
                        },
                ),
                cursor_column: stop,
                ..self
            }
        }
    }

    /// Erases the screen to blank cells of `style`; the cursor stays.
    pub open spec fn clear_screen(self, style: CellStyle) -> GridView {
        GridView { cells: blank_row(style, self.cells.len()), ..self }
    }
}

/// The text of a sequence of cells; continuation cells add nothing.
pub open spec fn joined_glyphs(cells: Seq<CellView>) -> Seq<char>
    decreases cells.len(),
{
    if cells.len() == 0 {
        Seq::empty()
    } else {
        joined_glyphs(cells.drop_last()) + if cells.last().wide_continuation {
            Seq::empty()
        } else {
            cells.last().grapheme
        }
    }
}

/// `s` without its trailing spaces.
pub open spec fn trim_trailing_spaces(s: Seq<char>) -> Seq<char>
    decreases s.len(),
{
    if s.len() > 0 && s.last() == ' ' {
        trim_trailing_spaces(s.drop_last())
    } else {
        s
    }
}

impl GridView {
    /// The text shown on one visible row, without trailing spaces.
    pub open spec fn line_text(self, row: nat) -> Seq<char> {
        trim_trailing_spaces(joined_glyphs(self.row_cells(row)))
    }
}

/// Screen grid with cursor and scrollback.
#[derive(Debug, PartialEq, Eq)]
pub struct TerminalGrid {
    pub columns: u16,
    pub rows: u16,
    /// Row-major cells of the visible screen.
    pub cells: Vec<TerminalCell>,
    pub cursor_column: u16,
    pub cursor_row: u16,
    /// Rows that scrolled off the top, oldest first.
    pub scrollback: Vec<Vec<TerminalCell>>,
    pub scrollback_limit: usize,
}

impl View for TerminalGrid {
    type V = GridView;

    open spec fn view(&self) -> GridView {
        GridView {
            columns: self.columns as nat,
            rows: self.rows as nat,
            cells: cells_view(self.cells@),
            cursor_column: self.cursor_column as nat,
            cursor_row: self.cursor_row as nat,
            scrollback: rows_view(self.scrollback@),
            scrollback_limit: self.scrollback_limit as nat,
        }
    }
}

/// Copies of the cells `cells[from..to]`.
fn clone_range(cells: &Vec<TerminalCell>, from: usize, to: usize) -> (out: Vec<TerminalCell>)
    requires
        from <= to <= cells@.len(),
    ensures
        cells_view(out@) == cells_view(cells@).subrange(from as int, to as int),
{
    let mut out: Vec<TerminalCell> = Vec::new();
    let mut i = from;
    while i < to
        invariant
            from <= i <= to <= cells@.len(),
            cells_view(out@) =~= cells_view(cells@).subrange(from as int, i as int),
        decreases to - i,
    {
        let c = cells[i].clone();
        let ghost prev = out@;
        out.push(c);
        assert(cells_view(out@) =~= cells_view(prev).push(c@));
        assert(cells_view(cells@).subrange(from as int, i + 1) =~= cells_view(cells@).subrange(from as int, i as int).push(cells@[i as int]@));
        i = i + 1;
    }
    out
}

/// `n` blank cells of `style` appended to `out`.
fn push_blanks(out: &mut Vec<TerminalCell>, style: &CellStyle, n: usize)
    ensures
        cells_view(final(out)@) == cells_view(old(out)@) + blank_row(*style, n as nat),
{
    let ghost start = cells_view(out@);
    let mut i: usize = 0;
    while i < n
        invariant
            i <= n,
            cells_view(out@) =~= start + blank_row(*style, i as nat),
        decreases n - i,
    {
        let c = TerminalCell::blank_with_style(style);
        let ghost prev = out@;
        out.push(c);
        assert(cells_view(out@) =~= cells_view(prev).push(c@));
        assert(blank_row(*style, (i + 1) as nat) =~= blank_row(*style, i as nat).push(blank_cell(*style)));
        i = i + 1;
    }
}

impl TerminalGrid {
    pub open spec fn wf(&self) -> bool {
        self@.wf()
    }

    proof fn lemma_sizes(&self)
        requires
            self.wf(),
        ensures
            self.cells@.len() == self.rows as int * self.columns as int,
            self.cells@.len() <= usize::MAX,
    {
        assert(self@.cells.len() == self.cells@.len());
        lemma_screen_size_fits(self.rows, self.columns);
    }

    /// A blank grid with the given scrollback capacity.
    pub fn with_scrollback_limit(columns: u16, rows: u16, scrollback_limit: usize) -> (g: TerminalGrid)
        ensures
            g.wf(),
            g@.columns == columns,
            g@.rows == rows,
            g@.cells == blank_row(default_style(), rows as nat * columns as nat),
            g@.cursor_column == 0,
            g@.cursor_row == 0,
            g@.scrollback.len() == 0,
            g@.scrollback_limit == scrollback_limit,
    {
        proof {
            lemma_screen_size_fits(rows, columns);
        }
        let len: usize = rows as usize * columns as usize;
        let mut cells: Vec<TerminalCell> = Vec::new();
        push_blanks(&mut cells, &CellStyle::default_style(), len);
        assert(cells_view(Seq::<TerminalCell>::empty()) =~= Seq::<CellView>::empty());
        assert(cells_view(cells@) =~= blank_row(default_style(), len as nat));
        let scrollback: Vec<Vec<TerminalCell>> = Vec::new();
        assert(rows_view(scrollback@) =~= Seq::<Seq<CellView>>::empty());
        TerminalGrid { columns, rows, cells, cursor_column: 0, cursor_row: 0, scrollback, scrollback_limit }
    }

    /// A blank grid of `columns` x `rows` default-styled cells.
    pub fn new(columns: u16, rows: u16) -> (g: TerminalGrid)
        ensures
            g.wf(),
            g@.columns == columns,
            g@.rows == rows,
            g@.cells == blank_row(default_style(), rows as nat * columns as nat),
            g@.cursor_column == 0,
            g@.cursor_row == 0,
            g@.scrollback.len() == 0,
            g@.scrollback_limit == DEFAULT_SCROLLBACK_LIMIT,
    {
        TerminalGrid::with_scrollback_limit(columns, rows, DEFAULT_SCROLLBACK_LIMIT)
    }

    /// The cell at `column`, `row`, if inside the screen.
    pub fn cell(&self, column: u16, row: u16) -> (c: Option<&TerminalCell>)
        requires
            self.wf(),
        ensures
            (column < self.columns && row < self.rows) == c.is_some(),
            c.is_some() ==> c.unwrap()@ == self@.cells[self@.index_of(column as nat, row as nat)],
    {
        if column < self.columns && row < self.rows {
            proof {
                lemma_index_fits(row as int, self.rows as int, self.columns as int, column as int);
                self.lemma_sizes();
            }
            let i = row as usize * self.columns as usize + column as usize;
            Some(&self.cells[i])
        } else {
            None
        }
    }

    /// Rows that scrolled off the screen, oldest first.
    pub fn scrollback_rows(&self) -> (r: &Vec<Vec<TerminalCell>>)
        ensures
            rows_view(r@) == self@.scrollback,
    {
        &self.scrollback
    }

    /// Moves the cursor to column 0.
    pub fn carriage_return(&mut self)
        requires
            old(self).wf(),
        ensures
            final(self)@ == old(self)@.carriage_return(),
            final(self).wf(),
    {
        self.cursor_column = 0;
    }

    /// Moves the cursor one column left, stopping at column 0.
    pub fn backspace(&mut self)
        requires
            old(self).wf(),
        ensures
            final(self)@ == old(self)@.backspace(),
            final(self).wf(),
    {
        if self.cursor_column > 0 {
            self.cursor_column = self.cursor_column - 1;
        }
    }

    fn scroll_up(&mut self, style: &CellStyle)
        requires
            old(self).wf(),
            old(self).rows > 0,
        ensures
            final(self)@ == old(self)@.scroll_up(*style),
            final(self).wf(),
    {
        let ghost old_view = self@;
        let columns = self.columns as usize;
        let len = self.cells.len();
        proof {
            lemma_row_offset(0, self.rows as nat, self.columns as nat);
        }
        let top = clone_range(&self.cells, 0, columns);
        let mut rest = clone_range(&self.cells, columns, len);
        push_blanks(&mut rest, style, columns);
        proof {
            assert(cells_view(self.cells@).take(columns as int) =~= cells_view(self.cells@).subrange(0, columns as int));
            assert(cells_view(self.cells@).skip(columns as int) =~= cells_view(self.cells@).subrange(columns as int, len as int));
        }
        self.cells = rest;
        if self.scrollback_limit == 0 {
        } else if self.scrollback.len() >= self.scrollback_limit {
            let ghost before = self.scrollback@;
            self.scrollback.remove(0);
            self.scrollback.push(top);
            proof {
                assert(rows_view(self.scrollback@) =~= rows_view(before).drop_first().push(cells_view(top@)));
            }
        } else {
            let ghost before = self.scrollback@;
            self.scrollback.push(top);
            proof {
                assert(rows_view(self.scrollback@) =~= rows_view(before).push(cells_view(top@)));
            }
        }
        proof {
            assert(self@.cells =~= old_view.scroll_up(*style).cells);
            assert(self@.scrollback =~= old_view.scroll_up(*style).scrollback);
        }
    }

    /// Line feed: moves to column 0 of the next row, scrolling at the bottom.
    pub fn newline(&mut self, style: &CellStyle)
        requires
            old(self).wf(),
        ensures
            final(self)@ == old(self)@.newline(*style),
            final(self).wf(),
    {
        if self.rows == 0 {
            self.cursor_column = 0;
        } else if self.cursor_row + 1 < self.rows {
            self.cursor_row = self.cursor_row + 1;
            self.cursor_column = 0;
        } else {
            self.scroll_up(style);
            self.cursor_column = 0;
        }
    }

    /// Writes a glyph at the cursor, wrapping first if it does not fit.
    pub fn write_grapheme(&mut self, grapheme: String, width: usize, style: &CellStyle)
        requires
            old(self).wf(),
        ensures
            final(self)@ == old(self)@.write_glyph(grapheme@, width as nat, *style),
            final(self).wf(),
    {
        if self.columns == 0 || self.rows == 0 {
            return;
        }
        let columns = self.columns as usize;
        let w: usize = if width == 0 {
            1
        } else if width > columns {
            columns
        } else {
            width
        };
        if self.cursor_column as usize + w > columns {
            self.newline(style);
        }
        let ghost base = self@;
        proof {
            lemma_index_fits(self.cursor_row as int, self.rows as int, self.columns as int, self.cursor_column as int);
            self.lemma_sizes();
        }
        assert(self.cursor_column as usize + w <= columns);
        let start = self.cursor_row as usize * columns + self.cursor_column as usize;
        self.cells.set(start, TerminalCell::with_grapheme(grapheme, style, false));
        let mut k: usize = 1;
        while k < w
            invariant
                1 <= k <= w,
                start + w <= self.cells@.len(),
                start + w <= usize::MAX,
                (GridView { cells: base.cells, ..self@ }) == base,
                self.cells@.len() == base.cells.len(),
                forall|i: int|
                    0 <= i < self.cells@.len() ==> #[trigger] self.cells@[i]@ == if i == start {
                        glyph_cell(grapheme@, *style, false)
                    } else if start < i < start + k {
                        glyph_cell(Seq::empty(), *style, true)
                    } else {
                        base.cells[i]
                    },
            decreases w - k,
        {
            let cont = TerminalCell::with_grapheme(String::new(), style, true);
            self.cells.set(start + k, cont);
            k = k + 1;
        }
        self.cursor_column = self.cursor_column + w as u16;
        proof {
            assert(self@.cells =~= old(self)@.write_glyph(grapheme@, width as nat, *style).cells);
        }
    }

    /// Horizontal tab to the next multiple of eight, filling with spaces.
    pub fn tab(&mut self, style: &CellStyle)
        requires
            old(self).wf(),
        ensures
            final(self)@ == old(self)@.tab(*style),
            final(self).wf(),
    {
        let next: u32 = (self.cursor_column as u32 / 8 + 1) * 8;
        let stop: u16 = if next < self.columns as u32 {
            next as u16
        } else {
            self.columns
        };
        if self.rows == 0 || self.cursor_column >= stop {
            return;
        }
        let ghost base = self@;
        proof {
            lemma_index_fits(self.cursor_row as int, self.rows as int, self.columns as int, stop as int);
            self.lemma_sizes();
        }
        let row_start = self.cursor_row as usize * self.columns as usize;
        let start = row_start + self.cursor_column as usize;
        let end = row_start + stop as usize;
        let mut i = start;
        while i < end
            invariant
                start <= i <= end <= self.cells@.len(),
                self.cells@.len() == base.cells.len(),
                (GridView { cells: base.cells, ..self@ }) == base,
                forall|j: int|
                    0 <= j < self.cells@.len() ==> #[trigger] self.cells@[j]@ == if start <= j < i {
                        glyph_cell(seq![' '], *style, false)
                    } else {
                        base.cells[j]
                    },
            decreases end - i,
        {
            let space = crate::text::string_of_char(' ');
            self.cells.set(i, TerminalCell::with_grapheme(space, style, false));
            i = i + 1;
        }
        self.cursor_column = stop;
        proof {
            assert(self@.cells =~= base.tab(*style).cells);
        }
    }

    /// Erases every visible cell to a blank of `style`.
    pub fn clear_screen(&mut self, style: &CellStyle)
        requires
            old(self).wf(),
        ensures
            final(self)@ == old(self)@.clear_screen(*style),
            final(self).wf(),
    {
        let len = self.cells.len();
        let mut cells: Vec<TerminalCell> = Vec::new();
        push_blanks(&mut cells, style, len);
        assert(cells_view(Seq::<TerminalCell>::empty()) =~= Seq::<CellView>::empty());
        self.cells = cells;
        proof {
            assert(self@.cells =~= old(self)@.clear_screen(*style).cells);
        }
    }

    /// The text of visible row `row`, without trailing spaces.
    pub fn line_text(&self, row: u16) -> (s: String)
        requires
            self.wf(),
            row < self.rows,
        ensures
            s@ == self@.line_text(row as nat),
    {
        proof {
            lemma_index_fits(row as int, self.rows as int, self.columns as int, self.columns as int);
            self.lemma_sizes();
        }
        let start = row as usize * self.columns as usize;
        let end = start + self.columns as usize;
        let ghost row_cells = self@.row_cells(row as nat);
        let mut chars: Vec<char> = Vec::new();
        let mut i = start;
        while i < end
            invariant
                start <= i <= end <= self.cells@.len(),
                row_cells == cells_view(self.cells@).subrange(start as int, end as int),
                chars@ == joined_glyphs(row_cells.take(i - start)),
            decreases end - i,
        {
            let cell = &self.cells[i];
            assert(row_cells.take(i - start + 1).drop_last() =~= row_cells.take(i - start));
            if !cell.wide_continuation {
                let g = crate::text::chars_of(cell.grapheme.as_str());
                let ghost prev = chars@;
                push_all_chars(&mut chars, &g);
            } else {
                assert(chars@ =~= chars@ + Seq::<char>::empty());
            }
            i = i + 1;
        }
        assert(row_cells.take(end - start) =~= row_cells);
        let mut n = chars.len();
        assert(chars@.take(n as int) =~= chars@);
        while n > 0 && chars[n - 1] == ' '
            invariant
                n <= chars@.len(),
                trim_trailing_spaces(chars@) == trim_trailing_spaces(chars@.take(n as int)),
            decreases n,
        {
            assert(chars@.take(n as int).drop_last() =~= chars@.take(n - 1));
            n = n - 1;
        }
        assert(trim_trailing_spaces(chars@.take(n as int)) == chars@.take(n as int));
        string_of_prefix(&chars, n)
    }

    /// The text of every visible row, top to bottom.
    pub fn visible_lines(&self) -> (lines: Vec<String>)
        requires
            self.wf(),
        ensures
            lines@.len() == self.rows,
            forall|r: int| 0 <= r < self.rows ==> #[trigger] lines@[r]@ == self@.line_text(r as nat),
    {
        let mut lines: Vec<String> = Vec::new();
        let mut r: u16 = 0;
        while r < self.rows
            invariant
                self.wf(),
                r <= self.rows,
                lines@.len() == r,
                forall|k: int| 0 <= k < r ==> #[trigger] lines@[k]@ == self@.line_text(k as nat),
            decreases self.rows - r,
        {
            lines.push(self.line_text(r));
            r = r + 1;
        }
        lines
    }
}

/// Appends `extra` to `chars`.
fn push_all_chars(chars: &mut Vec<char>, extra: &Vec<char>)
    ensures
        final(chars)@ == old(chars)@ + extra@,
{
    let ghost start = chars@;
    let mut i: usize = 0;
    while i < extra.len()
        invariant
            i <= extra@.len(),
            chars@ =~= start + extra@.take(i as int),
        decreases extra.len() - i,
    {
        chars.push(extra[i]);
        i = i + 1;
    }
    assert(extra@.take(extra@.len() as int) =~= extra@);
}

} // verus!
