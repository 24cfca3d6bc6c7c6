use smooth_terminal::terminal::cell::{Cell, CellAttributes, Color};
use smooth_terminal::terminal::grid::TerminalGrid;
use smooth_terminal::terminal::parser::{apply_sgr, VtEvent, VtePerformer};
use smooth_terminal::terminal::Terminal;

fn fresh() -> CellAttributes {
    CellAttributes::default()
}

// ── SGR reset ───────────────────────────────────────────────────────

#[test]
fn sgr_0_resets() {
    let mut a = fresh();
    a.bold = true;
    a.fg = Color::Indexed(1);
    apply_sgr(&mut a, &[0]);
    assert_eq!(a, fresh());
}

#[test]
fn empty_params_reset() {
    let mut a = fresh();
    a.bold = true;
    apply_sgr(&mut a, &[]);
    assert_eq!(a, fresh());
}

// ── SGR attributes ──────────────────────────────────────────────────

#[test]
fn sgr_bold() {
    let mut a = fresh();
    apply_sgr(&mut a, &[1]);
    assert!(a.bold);
}

#[test]
fn sgr_italic() {
    let mut a = fresh();
    apply_sgr(&mut a, &[3]);
    assert!(a.italic);
}

#[test]
fn sgr_underline() {
    let mut a = fresh();
    apply_sgr(&mut a, &[4]);
    assert!(a.underline);
}

#[test]
fn sgr_reverse() {
    let mut a = fresh();
    apply_sgr(&mut a, &[7]);
    assert!(a.reverse);
}

#[test]
fn sgr_strikethrough() {
    let mut a = fresh();
    apply_sgr(&mut a, &[9]);
    assert!(a.strikethrough);
}

#[test]
fn sgr_dim() {
    let mut a = fresh();
    apply_sgr(&mut a, &[2]);
    assert!(a.dim);
}

// ── SGR un-attributes ───────────────────────────────────────────────

#[test]
fn sgr_22_unbold_undim() {
    let mut a = fresh();
    a.bold = true;
    a.dim = true;
    apply_sgr(&mut a, &[22]);
    assert!(!a.bold);
    assert!(!a.dim);
}

#[test]
fn sgr_23_unitalic() {
    let mut a = fresh();
    a.italic = true;
    apply_sgr(&mut a, &[23]);
    assert!(!a.italic);
}

#[test]
fn sgr_24_ununderline() {
    let mut a = fresh();
    a.underline = true;
    apply_sgr(&mut a, &[24]);
    assert!(!a.underline);
}

#[test]
fn sgr_27_unreverse() {
    let mut a = fresh();
    a.reverse = true;
    apply_sgr(&mut a, &[27]);
    assert!(!a.reverse);
}

#[test]
fn sgr_29_unstrikethrough() {
    let mut a = fresh();
    a.strikethrough = true;
    apply_sgr(&mut a, &[29]);
    assert!(!a.strikethrough);
}

// ── Foreground colors ───────────────────────────────────────────────

#[test]
fn sgr_30_37_fg_indexed() {
    let mut a = fresh();
    apply_sgr(&mut a, &[31]); // red
    assert_eq!(a.fg, Color::Indexed(1));
    apply_sgr(&mut a, &[37]); // white
    assert_eq!(a.fg, Color::Indexed(7));
}

#[test]
fn sgr_38_5_n_fg_256() {
    let mut a = fresh();
    apply_sgr(&mut a, &[38, 5, 200]);
    assert_eq!(a.fg, Color::Indexed(200));
}

#[test]
fn sgr_38_2_rgb_fg() {
    let mut a = fresh();
    apply_sgr(&mut a, &[38, 2, 255, 128, 0]);
    assert_eq!(a.fg, Color::Rgb(255, 128, 0));
}

#[test]
fn sgr_39_default_fg() {
    let mut a = fresh();
    a.fg = Color::Indexed(5);
    apply_sgr(&mut a, &[39]);
    assert_eq!(a.fg, Color::Default);
}

// ── Background colors ───────────────────────────────────────────────

#[test]
fn sgr_40_47_bg_indexed() {
    let mut a = fresh();
    apply_sgr(&mut a, &[41]); // red bg
    assert_eq!(a.bg, Color::Indexed(1));
    apply_sgr(&mut a, &[47]); // white bg
    assert_eq!(a.bg, Color::Indexed(7));
}

#[test]
fn sgr_48_5_n_bg_256() {
    let mut a = fresh();
    apply_sgr(&mut a, &[48, 5, 100]);
    assert_eq!(a.bg, Color::Indexed(100));
}

#[test]
fn sgr_48_2_rgb_bg() {
    let mut a = fresh();
    apply_sgr(&mut a, &[48, 2, 10, 20, 30]);
    assert_eq!(a.bg, Color::Rgb(10, 20, 30));
}

#[test]
fn sgr_49_default_bg() {
    let mut a = fresh();
    a.bg = Color::Indexed(3);
    apply_sgr(&mut a, &[49]);
    assert_eq!(a.bg, Color::Default);
}

// ── Bright colors ───────────────────────────────────────────────────

#[test]
fn sgr_90_97_bright_fg() {
    let mut a = fresh();
    apply_sgr(&mut a, &[90]); // bright black
    assert_eq!(a.fg, Color::Indexed(8));
    apply_sgr(&mut a, &[97]); // bright white
    assert_eq!(a.fg, Color::Indexed(15));
}

#[test]
fn sgr_100_107_bright_bg() {
    let mut a = fresh();
    apply_sgr(&mut a, &[100]); // bright black bg
    assert_eq!(a.bg, Color::Indexed(8));
    apply_sgr(&mut a, &[107]); // bright white bg
    assert_eq!(a.bg, Color::Indexed(15));
}

// ── Multiple params in one call ─────────────────────────────────────

#[test]
fn sgr_multiple_params() {
    let mut a = fresh();
    apply_sgr(&mut a, &[1, 3, 31]); // bold + italic + red fg
    assert!(a.bold);
    assert!(a.italic);
    assert_eq!(a.fg, Color::Indexed(1));
}

// ── Streams of bytes through the state machine ──────────────────────

fn row_string(grid: &TerminalGrid, row: usize) -> String {
    grid.cells[row].iter().map(|c| if c.ch == '\0' { '_' } else { c.ch }).collect()
}

fn fill_row(grid: &mut TerminalGrid, row: usize, ch: char) {
    for col in 0..grid.cols {
        grid.cells[row][col] = Cell::new(ch, CellAttributes::default());
    }
}

#[test]
fn echo_and_wrap() {
    let mut t = Terminal::new(4, 4);
    t.feed(b"abcdef");
    let grid = t.grid();
    assert_eq!(row_string(grid, 0), "abcd");
    assert_eq!(row_string(grid, 1), "ef__");
    assert_eq!((grid.cursor_row, grid.cursor_col), (1, 2));
    assert!(!grid.pending_wrap);
}

#[test]
fn scroll_region_up() {
    let mut t = Terminal::new(4, 4);
    {
        let grid = &mut t.performer.grid;
        fill_row(grid, 0, 'x');
        fill_row(grid, 1, 'a');
        fill_row(grid, 2, 'b');
        fill_row(grid, 3, 'c');
        grid.scroll_top = 1;
        grid.scroll_bottom = 3;
    }
    t.feed(b"\x1b[1;1H");
    t.feed(b"\x1b[2S");
    let grid = t.grid();
    assert_eq!(row_string(grid, 0), "xxxx");
    assert_eq!(row_string(grid, 1), "cccc");
    assert_eq!(row_string(grid, 2), "____");
    assert_eq!(row_string(grid, 3), "____");
    assert_eq!(grid.scrollback.len(), 2);
    let first: String = grid.scrollback[0].iter().map(|c| c.ch).collect();
    let second: String = grid.scrollback[1].iter().map(|c| c.ch).collect();
    assert_eq!(first, "aaaa");
    assert_eq!(second, "bbbb");
}

#[test]
fn sgr_truecolor_through_parser() {
    let mut t = Terminal::new(10, 2);
    t.feed(b"\x1b[38;2;255;128;0mX");
    let cell = t.grid().cells[0][0];
    assert_eq!(cell.ch, 'X');
    assert_eq!(cell.attrs.fg, Color::Rgb(255, 128, 0));
}

#[test]
fn split_sequence_across_chunks() {
    let mut t = Terminal::new(10, 2);
    t.drain_pty_output(&vec![b"\x1b[3".to_vec(), b"1mA".to_vec()]);
    let cell = t.grid().cells[0][0];
    assert_eq!(cell.ch, 'A');
    assert_eq!(cell.attrs.fg, Color::Indexed(1));
}

#[test]
fn wide_character_takes_two_columns() {
    let mut t = Terminal::new(6, 2);
    t.feed("a\u{4e2d}b".as_bytes());
    let grid = t.grid();
    assert_eq!(grid.cells[0][0].ch, 'a');
    assert_eq!(grid.cells[0][1].ch, '\u{4e2d}');
    assert_eq!(grid.cells[0][2].ch, '\0');
    assert_eq!(grid.cells[0][3].ch, 'b');
    assert_eq!(grid.cursor_col, 4);
}

#[test]
fn malformed_utf8_becomes_replacement_character() {
    let mut t = Terminal::new(6, 2);
    t.feed(&[0xff, b'a']);
    let grid = t.grid();
    assert_eq!(grid.cells[0][0].ch, '\u{fffd}');
    assert_eq!(grid.cells[0][1].ch, 'a');
}

#[test]
fn osc_sets_title() {
    let mut t = Terminal::new(6, 2);
    t.feed(b"\x1b]0;hello\x07");
    assert_eq!(t.grid().title, "hello");
    t.feed(b"\x1b]2;caf\xc3\xa9\x1b\\");
    assert_eq!(t.grid().title, "caf\u{e9}");
    t.feed(b"\x1b]7;ignored\x07");
    assert_eq!(t.grid().title, "caf\u{e9}");
}

#[test]
fn unknown_sequences_are_dropped() {
    let mut t = Terminal::new(6, 2);
    let before = t.grid().clone();
    t.feed(b"\x1b[5y\x1b[>0c\x07");
    let grid = t.grid();
    assert_eq!(grid.cells, before.cells);
    assert_eq!((grid.cursor_row, grid.cursor_col), (0, 0));
    assert_eq!(grid.generation, before.generation);
}

#[test]
fn recorded_events_carry_parameters() {
    let mut p = VtePerformer::new(TerminalGrid::new(8, 3));
    p.apply(&VtEvent::Csi { params: vec![2, 5], intermediates: vec![], ignore: false, action: 'H' });
    assert_eq!((p.grid.cursor_row, p.grid.cursor_col), (1, 4));
    p.apply(&VtEvent::Csi { params: vec![2, 5], intermediates: vec![], ignore: true, action: 'H' });
    assert_eq!((p.grid.cursor_row, p.grid.cursor_col), (1, 4));
    p.apply(&VtEvent::Print('z'));
    assert_eq!(p.grid.cells[1][4].ch, 'z');
}

#[test]
fn state_machine_keeps_its_state_between_feeds() {
    let mut t = Terminal::new(10, 2);
    t.feed(b"\x1b");
    t.feed(b"[");
    t.feed(b"4");
    t.feed(b"2mB\xe4");
    t.feed(b"\xb8\xad");
    let grid = t.grid();
    assert_eq!(grid.cells[0][0].ch, 'B');
    assert_eq!(grid.cells[0][0].attrs.bg, Color::Indexed(2));
    assert_eq!(grid.cells[0][1].ch, '\u{4e2d}');
    assert_eq!(grid.cursor_col, 3);
}

#[test]
fn feeding_nothing_changes_nothing() {
    let mut t = Terminal::new(4, 2);
    t.feed(b"ab");
    let before = t.grid().clone();
    t.feed(b"");
    t.drain_pty_output(&vec![]);
    t.drain_pty_output(&vec![vec![], vec![]]);
    assert_eq!(t.grid().cells, before.cells);
    assert_eq!(t.grid().generation, before.generation);
    assert_eq!((t.grid().cursor_row, t.grid().cursor_col), (0, 2));
}
