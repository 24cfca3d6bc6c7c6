use smooth_terminal::config::{ColorsConfig, Rgba};
use smooth_terminal::pane::layout::Rect;
use smooth_terminal::pane::PaneTree;
use smooth_terminal::renderer::text_renderer::{row_glyphs, Glyph};
use smooth_terminal::renderer::Selection;
use smooth_terminal::terminal::cell::{Cell, CellAttributes, Color};
use smooth_terminal::terminal::grid::TerminalGrid;
use smooth_terminal::terminal::parser::columns_of;
use smooth_terminal::terminal::pty::{
    resolve_shell, shell_environment, CHANNEL_CAPACITY, READ_BUFFER_SIZE,
};
use smooth_terminal::window::{
    content_rect, frame_interval_ms, pane_at, paste_bytes, track_cursor, MouseState,
};

#[test]
fn pane_under_a_point() {
    let rects = vec![
        (0, Rect::new(0, 0, 100, 200)),
        (1, Rect::new(100, 0, 100, 100)),
        (2, Rect::new(100, 100, 100, 100)),
        (3, Rect::new(0, 0, 500, 500)),
    ];
    assert_eq!(pane_at(&rects, 0, 0), Some(0));
    assert_eq!(pane_at(&rects, 99, 199), Some(0));
    assert_eq!(pane_at(&rects, 100, 99), Some(1));
    assert_eq!(pane_at(&rects, 100, 100), Some(2));
    assert_eq!(pane_at(&rects, 200, 100), Some(3));
    assert_eq!(pane_at(&rects, 500, 0), None);
    assert_eq!(pane_at(&[], 0, 0), None);
    assert_eq!(pane_at(&[(9, Rect::new(u32::MAX, u32::MAX, 5, 5))], u32::MAX, u32::MAX), Some(9));
}

#[test]
fn click_focuses_a_pane_of_the_tree() {
    let window = Rect::new(0, 0, 200, 100);
    let mut tree = PaneTree::new(10, 10);
    tree.split_horizontal(10, 10, window);
    let mut rects = tree.layout.as_ref().unwrap().compute_rects(window);
    tree.focus_at(&rects, 10, 10);
    assert_eq!(tree.focused_id, Some(0));
    tree.focus_at(&rects, 150, 10);
    assert_eq!(tree.focused_id, Some(1));
    tree.focus_at(&rects, 250, 10);
    assert_eq!(tree.focused_id, Some(1));
    rects[0].0 = 7;
    tree.focus_at(&rects, 10, 10);
    assert_eq!(tree.focused_id, Some(1));
}

#[test]
fn mouse_makes_a_selection() {
    let mut mouse = MouseState::new();
    assert!(mouse.selection.is_none() && !mouse.button_down);
    mouse.drag(Some((1, 1)));
    assert!(mouse.selection.is_none());
    mouse.press(Some(4), Some((2, 3)));
    assert!(mouse.button_down);
    assert_eq!(mouse.selection_pane, 4);
    assert_eq!(mouse.selection.unwrap().normalized(), ((2, 3), (2, 3)));
    mouse.drag(Some((1, 7)));
    mouse.drag(None);
    let sel = mouse.selection.unwrap();
    assert_eq!((sel.anchor, sel.head), ((2, 3), (1, 7)));
    assert!(!mouse.release());
    assert!(!mouse.button_down);
    mouse.drag(Some((0, 0)));
    assert_eq!(mouse.selection.unwrap().head, (1, 7));
    mouse.clear_selection();
    assert!(mouse.selection.is_none());
}

#[test]
fn a_press_and_release_in_place_is_a_click() {
    let mut mouse = MouseState::new();
    mouse.press(Some(1), Some((5, 5)));
    assert!(mouse.release());
    assert!(mouse.selection.is_none());
    assert!(!mouse.release());
    mouse.press(Some(1), Some((5, 5)));
    mouse.drag(Some((5, 6)));
    mouse.drag(Some((5, 5)));
    assert!(mouse.release());
    mouse.selection = Some(Selection { anchor: (1, 1), head: (2, 2) });
    mouse.press(Some(2), None);
    assert!(mouse.selection.is_none());
    assert_eq!(mouse.selection_pane, 1);
    mouse.selection = Some(Selection { anchor: (1, 1), head: (2, 2) });
    mouse.press(None, Some((0, 0)));
    assert_eq!(mouse.selection.unwrap().anchor, (1, 1));
}

#[test]
fn paste_is_bracketed_on_request() {
    assert_eq!(paste_bytes("a\u{e9}", false), vec![b'a', 0xc3, 0xa9]);
    assert_eq!(paste_bytes("a\u{e9}", true), b"\x1b[200~a\xc3\xa9\x1b[201~".to_vec());
    assert_eq!(paste_bytes("", true), b"\x1b[200~\x1b[201~".to_vec());
    assert_eq!(paste_bytes("", false), Vec::<u8>::new());
}

#[test]
fn cursor_follows_the_drawn_cursor_when_hidden() {
    let mut grid = TerminalGrid::new(5, 3);
    grid.move_cursor_to(1, 2);
    grid.cells[2][4] = Cell::new('x', CellAttributes { reverse: true, ..Default::default() });
    assert_eq!(track_cursor(&mut grid), Some((2, 1)));
    assert_eq!(grid.reverse_cursor, None);
    grid.cursor_visible = false;
    assert_eq!(track_cursor(&mut grid), Some((4, 2)));
    assert_eq!(grid.reverse_cursor, Some((2, 4)));
    grid.cells[2][4] = Cell::default();
    assert_eq!(track_cursor(&mut grid), None);
    assert_eq!(grid.reverse_cursor, None);
    grid.reverse_cursor = Some((0, 0));
    grid.cursor_visible = true;
    assert_eq!(track_cursor(&mut grid), Some((2, 1)));
    assert_eq!(grid.reverse_cursor, None);
}

#[test]
fn contents_keep_clear_of_the_padding() {
    assert_eq!(content_rect(1200, 800, 20), Rect::new(20, 20, 1160, 760));
    assert_eq!(content_rect(1200, 800, 0), Rect::new(0, 0, 1200, 800));
    assert_eq!(content_rect(40, 41, 20), Rect::new(20, 20, 1, 1));
    assert_eq!(content_rect(0, 0, u32::MAX), Rect::new(u32::MAX, u32::MAX, 1, 1));
}

#[test]
fn frame_interval_from_rate() {
    assert_eq!(frame_interval_ms(120), 8);
    assert_eq!(frame_interval_ms(60), 16);
    assert_eq!(frame_interval_ms(1), 1000);
    assert_eq!(frame_interval_ms(0), 1000);
    assert_eq!(frame_interval_ms(5000), 0);
}

#[test]
fn shell_is_resolved_in_order() {
    let s = |t: &str| Some(t.to_string());
    assert_eq!(resolve_shell(s("/bin/fish"), s("/bin/bash")), "/bin/fish");
    assert_eq!(resolve_shell(s(""), s("/bin/bash")), "/bin/bash");
    assert_eq!(resolve_shell(None, s("/bin/bash")), "/bin/bash");
    assert_eq!(resolve_shell(s(""), None), "/bin/zsh");
    assert_eq!(resolve_shell(None, None), "/bin/zsh");
}

#[test]
fn shell_environment_is_seeded() {
    let pair = |a: &str, b: &str| (a.to_string(), b.to_string());
    assert_eq!(
        shell_environment(Some("/home/u"), Some("u"), "/bin/zsh"),
        vec![
            pair("TERM", "xterm-256color"),
            pair("COLORTERM", "truecolor"),
            pair("TERM_PROGRAM", "smooth_terminal"),
            pair("HOME", "/home/u"),
            pair("USER", "u"),
            pair("LOGNAME", "u"),
            pair("SHELL", "/bin/zsh"),
        ]
    );
    assert_eq!(
        shell_environment(None, None, "sh"),
        vec![
            pair("TERM", "xterm-256color"),
            pair("COLORTERM", "truecolor"),
            pair("TERM_PROGRAM", "smooth_terminal"),
            pair("SHELL", "sh"),
        ]
    );
    assert_eq!(READ_BUFFER_SIZE, 4096);
    assert_eq!(CHANNEL_CAPACITY, 256);
}

#[test]
fn glyphs_of_a_row() {
    let palette = ColorsConfig::default().ansi_palette();
    let fg = Rgba { r: 1, g: 2, b: 3, a: 255 };
    let red = CellAttributes { fg: Color::Rgb(200, 0, 0), ..Default::default() };
    let row = vec![
        Cell::new('a', red),
        Cell::new(' ', red),
        Cell::new('\u{4e2d}', Default::default()),
        Cell::default(),
        Cell::new('\u{7}', red),
        Cell::new('\u{85}', red),
        Cell::new('\u{301}', Default::default()),
    ];
    assert_eq!(
        row_glyphs(&row, fg, &palette),
        vec![
            Glyph { col: 0, ch: 'a', color: Rgba { r: 200, g: 0, b: 0, a: 255 }, columns: 1 },
            Glyph { col: 2, ch: '\u{4e2d}', color: fg, columns: 2 },
            Glyph { col: 6, ch: '\u{301}', color: fg, columns: 1 },
        ]
    );
    assert_eq!(row_glyphs(&[], fg, &palette), vec![]);
}

#[test]
fn columns_of_characters() {
    assert_eq!(columns_of('a'), 1);
    assert_eq!(columns_of('~'), 1);
    assert_eq!(columns_of('\u{4e2d}'), 2);
    assert_eq!(columns_of('\u{1f600}'), 2);
    assert_eq!(columns_of('\u{301}'), 1);
    assert_eq!(columns_of('\u{0}'), 1);
    assert_eq!(columns_of('\u{9b}'), 1);
    assert_eq!(columns_of('\u{17d8}'), 3);
    assert_eq!(columns_of('\u{a0}'), 1);
}
