use yshell::terminal::color::TerminalColor;
use yshell::terminal::grid::{TerminalGrid, DEFAULT_SCROLLBACK_LIMIT};
use yshell::terminal::input::{ControlKey, TerminalInputEvent};
use yshell::terminal::parser::TerminalParser;
use yshell::terminal::search::SearchQuery;
use yshell::terminal::selection::GridPoint;

#[test]
fn parses_printable_controls_and_scrollback() {
    let mut grid = TerminalGrid::with_scrollback_limit(4, 2, 8);
    let mut parser = TerminalParser::new();

    parser.advance(&mut grid, b"abcd\nef\rg\x08h\nijkl");

    assert_eq!(grid.scrollback_rows().len(), 1);
    assert_eq!(grid.line_text(0), "hf");
    assert_eq!(grid.line_text(1), "ijkl");
}

#[test]
fn parses_sgr_and_clear_screen() {
    let mut grid = TerminalGrid::new(8, 2);
    let mut parser = TerminalParser::new();

    parser.advance(&mut grid, b"\x1b[1;31;44mA\x1b[0mB");

    // SGR 31 selects palette entry 1 (red) as foreground, SGR 44 palette
    // entry 4 (blue) as background.
    let red_bold = grid.cell(0, 0).expect("cell exists");
    assert_eq!(red_bold.grapheme, "A");
    assert_eq!(red_bold.foreground, TerminalColor::ansi(1));
    assert_eq!(red_bold.background, TerminalColor::ansi(4));
    assert!(red_bold.bold);
    assert_eq!(
        grid.cell(1, 0).expect("cell exists").foreground,
        TerminalColor::white()
    );

    parser.advance(&mut grid, b"\x1b[2J");
    assert_eq!(grid.visible_lines(), vec!["", ""]);
}

#[test]
fn wide_char_occupies_continuation_cell_without_panicking() {
    let mut grid = TerminalGrid::new(4, 1);
    let mut parser = TerminalParser::new();

    parser.advance(&mut grid, "好a".as_bytes());

    assert_eq!(grid.cell(0, 0).expect("wide").grapheme, "好");
    assert!(grid.cell(1, 0).expect("continuation").wide_continuation);
    assert_eq!(grid.cell(2, 0).expect("a").grapheme, "a");
}

#[test]
fn searches_visible_lines_case_insensitively() {
    let mut grid = TerminalGrid::new(20, 2);
    let mut parser = TerminalParser::new();
    parser.advance(&mut grid, b"Prompt> Secret\nsecret again");

    let matches = SearchQuery::new("secret").find_in_grid(&grid);

    assert_eq!(matches.len(), 2);
    assert_eq!(matches[0].start, GridPoint { column: 8, row: 0 });
    assert_eq!(matches[1].start, GridPoint { column: 0, row: 1 });
}

#[test]
fn truecolor_sgr_and_wide_text_render() {
    let mut grid = TerminalGrid::new(24, 3);
    let mut parser = TerminalParser::new();
    parser.advance(
        &mut grid,
        b"plain \x1b[1;38;2;12;34;56mred-ish\x1b[0m\nwide: \xe5\xa5\xbd",
    );
    let styled_cell = grid.cell(6, 0).expect("styled output cell");
    assert_eq!(styled_cell.grapheme, "r");
    assert!(styled_cell.bold);
    assert_eq!(styled_cell.foreground, TerminalColor::rgb(12, 34, 56));
    assert_eq!(grid.line_text(1), "wide: 好");
}

#[test]
fn tab_fills_to_next_stop_and_wraps_long_lines() {
    let mut grid = TerminalGrid::new(10, 2);
    let mut parser = TerminalParser::new();
    parser.advance(&mut grid, b"ab\tc");
    assert_eq!(grid.line_text(0), "ab      c");
    assert_eq!(grid.cursor_column, 9);
    parser.advance(&mut grid, b"xyz");
    assert_eq!(grid.line_text(0), "ab      cx");
    assert_eq!(grid.line_text(1), "yz");
}

#[test]
fn scrollback_keeps_only_the_newest_rows() {
    let mut grid = TerminalGrid::with_scrollback_limit(3, 1, 2);
    let mut parser = TerminalParser::new();
    parser.advance(&mut grid, b"a\nb\nc\nd");
    assert_eq!(grid.scrollback_rows().len(), 2);
    assert_eq!(grid.scrollback_rows()[0][0].grapheme, "b");
    assert_eq!(grid.scrollback_rows()[1][0].grapheme, "c");
    assert_eq!(grid.line_text(0), "d");
}

#[test]
fn invalid_utf8_becomes_replacement_character() {
    let mut grid = TerminalGrid::new(4, 1);
    let mut parser = TerminalParser::new();
    parser.advance(&mut grid, b"a\xffb");
    assert_eq!(grid.line_text(0), "a\u{fffd}b");
}

#[test]
fn bright_colors_and_attribute_resets() {
    let mut grid = TerminalGrid::new(4, 1);
    let mut parser = TerminalParser::new();
    parser.advance(&mut grid, b"\x1b[3;4;91;102m");
    let style = parser.style();
    assert!(style.italic && style.underline);
    assert_eq!(style.foreground, TerminalColor::ansi(9));
    assert_eq!(style.background, TerminalColor::ansi(10));
    parser.advance(&mut grid, b"\x1b[23;24;39;49m");
    let style = parser.style();
    assert!(!style.italic && !style.underline);
    assert_eq!(style.foreground, TerminalColor::white());
    assert_eq!(style.background, TerminalColor::black());
}

#[test]
fn input_events_drive_the_model() {
    let mut grid = TerminalGrid::new(6, 2);
    let mut parser = TerminalParser::new();
    parser.apply_input(&mut grid, &TerminalInputEvent::PrintableText { text: "hi".to_owned() });
    parser.apply_input(&mut grid, &TerminalInputEvent::ControlKey { key: ControlKey::Enter });
    parser.apply_input(&mut grid, &TerminalInputEvent::Paste { bytes: b"yo".to_vec(), bracketed: false });
    assert_eq!(grid.visible_lines(), vec!["hi", "yo"]);
    parser.apply_input(&mut grid, &TerminalInputEvent::Resize { columns: 3, rows: 1 });
    assert_eq!(grid.columns, 3);
    assert_eq!(grid.visible_lines(), vec![""]);
}

#[test]
fn case_sensitive_search_skips_other_case() {
    let mut grid = TerminalGrid::new(20, 1);
    let mut parser = TerminalParser::new();
    parser.advance(&mut grid, b"Secret secret");
    let matches = SearchQuery::new("secret").case_sensitive(true).find_in_grid(&grid);
    assert_eq!(matches.len(), 1);
    assert_eq!(matches[0].start, GridPoint { column: 7, row: 0 });
    assert_eq!(matches[0].end, GridPoint { column: 12, row: 0 });
    assert!(SearchQuery::new("").find_in_grid(&grid).is_empty());
}

#[test]
fn resize_gives_a_fresh_grid_with_the_default_scrollback_limit() {
    let mut grid = TerminalGrid::with_scrollback_limit(4, 1, 2);
    let mut parser = TerminalParser::new();
    parser.apply_input(&mut grid, &TerminalInputEvent::Resize { columns: 5, rows: 2 });
    assert_eq!(grid.scrollback_limit, DEFAULT_SCROLLBACK_LIMIT);
    assert_eq!(grid.rows, 2);
}

#[test]
fn case_insensitive_columns_follow_byte_offsets_of_the_lowercase_text() {
    // The Kelvin sign takes three bytes and lowercases to the one-byte `k`, so
    // the byte range found in the lowercase text lands earlier on the line.
    let mut grid = TerminalGrid::new(20, 1);
    let mut parser = TerminalParser::new();
    parser.advance(&mut grid, "\u{212A}\u{212A}\u{212A}uvwxyzabc".as_bytes());
    let query = SearchQuery::new("ABC");
    assert!(query.columns_fit(&grid));
    let matches = query.find_in_grid(&grid);
    assert_eq!(matches.len(), 1);
    assert_eq!(matches[0].start, GridPoint { column: 3, row: 0 });
    assert_eq!(matches[0].end, GridPoint { column: 5, row: 0 });
    let checked = query.find_in_grid_checked(&grid).expect("columns fit");
    assert_eq!(checked, matches);
}

#[test]
fn case_insensitive_match_off_a_character_boundary_is_refused() {
    let mut grid = TerminalGrid::new(20, 1);
    let mut parser = TerminalParser::new();
    parser.advance(&mut grid, "\u{23A}xab".as_bytes());
    let query = SearchQuery::new("ab");
    assert!(!query.columns_fit(&grid));
    assert_eq!(query.find_in_grid_checked(&grid), None);
    let exact = SearchQuery::new("ab").case_sensitive(true);
    assert!(exact.columns_fit(&grid));
    let matches = exact.find_in_grid(&grid);
    assert_eq!(matches[0].start, GridPoint { column: 2, row: 0 });
    assert_eq!(matches[0].end, GridPoint { column: 3, row: 0 });
}

#[test]
fn input_events_act_as_their_bytes() {
    let mut typed_grid = TerminalGrid::new(10, 3);
    let mut typed = TerminalParser::new();
    typed.apply_input(&mut typed_grid, &TerminalInputEvent::PrintableText { text: "h\u{e9}".to_owned() });
    typed.apply_input(&mut typed_grid, &TerminalInputEvent::ControlKey { key: ControlKey::Enter });
    typed.apply_input(&mut typed_grid, &TerminalInputEvent::ControlKey { key: ControlKey::Tab });

    let mut fed_grid = TerminalGrid::new(10, 3);
    let mut fed = TerminalParser::new();
    fed.advance(&mut fed_grid, "h\u{e9}".as_bytes());
    fed.advance(&mut fed_grid, b"\n");
    fed.advance(&mut fed_grid, b"\t");

    assert_eq!(typed_grid.visible_lines(), fed_grid.visible_lines());
    assert_eq!(typed_grid.cursor_column, fed_grid.cursor_column);
    assert_eq!(typed_grid.cursor_row, fed_grid.cursor_row);
    assert_eq!(typed_grid.visible_lines()[0], "h\u{e9}");
}
