use smooth_terminal::config::{ColorsConfig, Rgba};
use smooth_terminal::pane::layout::Rect;
use smooth_terminal::renderer::text_renderer::{
    cell_text_color, detect_hex_colors, resolve_color, xterm256_to_rgba,
};
use smooth_terminal::renderer::{
    border_rects, content_origin, pixel_to_cell, scrollback_window, selection_rows, Selection,
};
use smooth_terminal::terminal::cell::{Cell, CellAttributes, Color};

fn make_row(s: &str) -> Vec<Cell> {
    s.chars().map(|ch| Cell::new(ch, Default::default())).collect()
}

fn rgb(r: u8, g: u8, b: u8) -> Rgba {
    Rgba { r, g, b, a: 255 }
}

#[test]
fn selection_is_normalized_in_reading_order() {
    let down = Selection { anchor: (1, 5), head: (3, 0) };
    assert_eq!(down.normalized(), ((1, 5), (3, 0)));
    let up = Selection { anchor: (3, 0), head: (1, 5) };
    assert_eq!(up.normalized(), ((1, 5), (3, 0)));
    let back = Selection { anchor: (2, 7), head: (2, 3) };
    assert_eq!(back.normalized(), ((2, 3), (2, 7)));
    assert!(!back.is_empty());
    let click = Selection { anchor: (2, 7), head: (2, 7) };
    assert_eq!(click.normalized(), ((2, 7), (2, 7)));
    assert!(click.is_empty());
}

#[test]
fn selection_rows_span_whole_rows_between_the_ends() {
    let sel = Selection { anchor: (4, 1), head: (2, 6) };
    assert_eq!(selection_rows(&sel, 10, 8), vec![(2, 6, 7), (3, 0, 7), (4, 0, 1)]);
    assert_eq!(selection_rows(&sel, 4, 8), vec![(2, 6, 7), (3, 0, 7)]);
    assert_eq!(selection_rows(&sel, 2, 8), vec![]);
    let line = Selection { anchor: (0, 2), head: (0, 99) };
    assert_eq!(selection_rows(&line, 1, 8), vec![(0, 2, 7)]);
}

#[test]
fn contents_are_inset_behind_separators() {
    let window = Rect::new(10, 10, 400, 300);
    assert_eq!(content_origin(Rect::new(10, 10, 200, 300), window), (10, 10));
    assert_eq!(content_origin(Rect::new(210, 10, 200, 150), window), (219, 10));
    assert_eq!(content_origin(Rect::new(210, 160, 200, 150), window), (219, 169));
    assert_eq!(content_origin(Rect::new(u32::MAX, 0, 0, 0), window), (u32::MAX as u64 + 9, 0));
}

#[test]
fn separators_run_along_inner_edges() {
    let window = Rect::new(0, 0, 400, 300);
    let a = Rect::new(0, 0, 200, 300);
    let b = Rect::new(200, 0, 200, 150);
    let c = Rect::new(200, 150, 200, 150);
    assert_eq!(border_rects(&[(0, a)], window), vec![]);
    assert_eq!(border_rects(&[], window), vec![]);
    assert_eq!(
        border_rects(&[(0, a), (1, b), (2, c)], window),
        vec![
            Rect::new(200, 0, 1, 150),
            Rect::new(200, 150, 1, 150),
            Rect::new(200, 150, 200, 1),
        ]
    );
}

#[test]
fn scrollback_window_follows_the_offset() {
    assert_eq!(scrollback_window(100, 24, 0, 20), None);
    assert_eq!(scrollback_window(0, 24, 500, 20), None);
    assert_eq!(scrollback_window(100, 24, 1, 20), Some((75, 100)));
    assert_eq!(scrollback_window(100, 24, 20, 20), Some((75, 100)));
    assert_eq!(scrollback_window(100, 24, 21, 20), Some((74, 100)));
    assert_eq!(scrollback_window(100, 24, 1520, 20), Some((0, 100)));
    assert_eq!(scrollback_window(100, 24, u32::MAX, 1), Some((0, 100)));
    assert_eq!(scrollback_window(10, 24, 5, 20), Some((0, 10)));
}

#[test]
fn pixels_map_to_cells() {
    let pane = Rect::new(100, 50, 80, 40);
    let at = |px, py, offset| pixel_to_cell(px, py, pane, offset, 8, 10, 5, 4, 10);
    assert_eq!(at(100, 50, 0), Some((5, 0)));
    assert_eq!(at(115, 69, 0), Some((6, 1)));
    assert_eq!(at(116, 70, 0), Some((7, 2)));
    assert_eq!(at(179, 89, 0), Some((8, 9)));
    assert_eq!(at(500, 89, 0), Some((8, 9)));
    assert_eq!(at(0, 89, 0), Some((8, 0)));
    assert_eq!(at(100, 90, 0), None);
    assert_eq!(at(100, 49, 0), Some((4, 0)));
    assert_eq!(at(100, 40, 0), Some((4, 0)));
    assert_eq!(at(100, 39, 0), Some((3, 0)));
    assert_eq!(at(100, 0, 0), Some((0, 0)));
    assert_eq!(at(100, 50, 50), Some((0, 0)));
    assert_eq!(at(100, 50, 51), None);
    assert_eq!(at(100, 99, 10), Some((8, 0)));
}

#[test]
fn palette_entries_beyond_the_configuration() {
    assert_eq!(xterm256_to_rgba(0), rgb(255, 255, 255));
    assert_eq!(xterm256_to_rgba(16), rgb(0, 0, 0));
    assert_eq!(xterm256_to_rgba(17), rgb(0, 0, 95));
    assert_eq!(xterm256_to_rgba(21), rgb(0, 0, 255));
    assert_eq!(xterm256_to_rgba(46), rgb(0, 255, 0));
    assert_eq!(xterm256_to_rgba(110), rgb(135, 175, 215));
    assert_eq!(xterm256_to_rgba(196), rgb(255, 0, 0));
    assert_eq!(xterm256_to_rgba(231), rgb(255, 255, 255));
    assert_eq!(xterm256_to_rgba(232), rgb(0, 0, 0));
    assert_eq!(xterm256_to_rgba(233), rgb(11, 11, 11));
    assert_eq!(xterm256_to_rgba(244), rgb(133, 133, 133));
    assert_eq!(xterm256_to_rgba(255), rgb(255, 255, 255));
}

#[test]
fn colors_resolve_against_palette_and_default() {
    let palette = ColorsConfig::default().ansi_palette();
    let fg = rgb(1, 2, 3);
    assert_eq!(resolve_color(&Color::Default, fg, &palette), fg);
    assert_eq!(resolve_color(&Color::Indexed(1), fg, &palette), rgb(0xf3, 0x8b, 0xa8));
    assert_eq!(resolve_color(&Color::Indexed(15), fg, &palette), rgb(0xa6, 0xad, 0xc8));
    assert_eq!(resolve_color(&Color::Indexed(16), fg, &palette), rgb(0, 0, 0));
    assert_eq!(resolve_color(&Color::Rgb(9, 8, 7), fg, &palette), rgb(9, 8, 7));
}

#[test]
fn hex_codes_are_found_in_a_row() {
    let row = make_row("a #ff8000 b #12345 #abcdef0 #ABCDEF");
    let found = detect_hex_colors(&row);
    let mut expected: Vec<(usize, Rgba)> = (2..9).map(|c| (c, rgb(255, 128, 0))).collect();
    expected.extend((28..35).map(|c| (c, rgb(0xab, 0xcd, 0xef))));
    assert_eq!(found, expected);
    assert_eq!(detect_hex_colors(&make_row("#fffff")), vec![]);
    assert_eq!(detect_hex_colors(&make_row("#ffffff")).len(), 7);
    assert_eq!(detect_hex_colors(&make_row("##00ff00")).len(), 7);
    assert_eq!(detect_hex_colors(&make_row("#00ff00#00ff00"))[7], (7, rgb(0, 255, 0)));
    assert_eq!(detect_hex_colors(&make_row("")), vec![]);
}

#[test]
fn text_color_prefers_code_then_reverse() {
    let palette = ColorsConfig::default().ansi_palette();
    let fg = rgb(1, 2, 3);
    let overrides = vec![(2, rgb(9, 9, 9)), (3, rgb(9, 9, 9)), (2, rgb(7, 7, 7))];
    let plain = Cell::new('x', CellAttributes { fg: Color::Rgb(5, 5, 5), ..Default::default() });
    let reversed = Cell::new(
        'x',
        CellAttributes { fg: Color::Rgb(5, 5, 5), bg: Color::Indexed(16), reverse: true, ..Default::default() },
    );
    assert_eq!(cell_text_color(&plain, 2, &overrides, fg, &palette), rgb(9, 9, 9));
    assert_eq!(cell_text_color(&plain, 1, &overrides, fg, &palette), rgb(5, 5, 5));
    assert_eq!(cell_text_color(&reversed, 1, &overrides, fg, &palette), rgb(0, 0, 0));
    assert_eq!(cell_text_color(&reversed, 3, &overrides, fg, &palette), rgb(9, 9, 9));
    assert_eq!(cell_text_color(&Cell::default(), 0, &vec![], fg, &palette), fg);
}
