use smooth_terminal::input::{
    encode_key_character, encode_named_key, handle_key_event, InputAction, Key, KeyEvent,
    Modifiers, NamedKey,
};

// ── encode_key_character ────────────────────────────────────────────

#[test]
fn plain_char() {
    assert_eq!(encode_key_character("a", false, false), b"a".to_vec());
    assert_eq!(encode_key_character("Z", false, false), b"Z".to_vec());
}

#[test]
fn ctrl_a_is_0x01() {
    assert_eq!(encode_key_character("a", true, false), vec![0x01]);
}

#[test]
fn ctrl_z_is_0x1a() {
    assert_eq!(encode_key_character("z", true, false), vec![0x1a]);
}

#[test]
fn ctrl_c_is_0x03() {
    assert_eq!(encode_key_character("c", true, false), vec![0x03]);
}

#[test]
fn alt_a_is_esc_a() {
    assert_eq!(encode_key_character("a", false, true), vec![0x1b, b'a']);
}

#[test]
fn alt_z_is_esc_z() {
    assert_eq!(encode_key_character("z", false, true), vec![0x1b, b'z']);
}

// ── encode_named_key ────────────────────────────────────────────────

fn mods(shift: bool, ctrl: bool, alt: bool) -> Modifiers {
    Modifiers { shift, ctrl, alt, cmd: false }
}

#[test]
fn enter_is_cr() {
    assert_eq!(encode_named_key(&NamedKey::Enter, mods(false, false, false)), vec![b'\r']);
}

#[test]
fn tab_is_tab() {
    assert_eq!(encode_named_key(&NamedKey::Tab, mods(false, false, false)), vec![b'\t']);
}

#[test]
fn shift_tab_is_backtab() {
    assert_eq!(encode_named_key(&NamedKey::Tab, mods(true, false, false)), vec![0x1b, b'[', b'Z']);
}

#[test]
fn backspace_is_0x7f() {
    assert_eq!(encode_named_key(&NamedKey::Backspace, mods(false, false, false)), vec![0x7f]);
}

#[test]
fn delete_sequence() {
    assert_eq!(encode_named_key(&NamedKey::Delete, mods(false, false, false)), vec![0x1b, b'[', b'3', b'~']);
}

#[test]
fn escape_is_0x1b() {
    assert_eq!(encode_named_key(&NamedKey::Escape, mods(false, false, false)), vec![0x1b]);
}

#[test]
fn arrow_up() {
    assert_eq!(encode_named_key(&NamedKey::ArrowUp, mods(false, false, false)), vec![0x1b, b'[', b'A']);
}

#[test]
fn arrow_down() {
    assert_eq!(encode_named_key(&NamedKey::ArrowDown, mods(false, false, false)), vec![0x1b, b'[', b'B']);
}

#[test]
fn arrow_right() {
    assert_eq!(encode_named_key(&NamedKey::ArrowRight, mods(false, false, false)), vec![0x1b, b'[', b'C']);
}

#[test]
fn arrow_left() {
    assert_eq!(encode_named_key(&NamedKey::ArrowLeft, mods(false, false, false)), vec![0x1b, b'[', b'D']);
}

#[test]
fn ctrl_arrow_up() {
    assert_eq!(encode_named_key(&NamedKey::ArrowUp, mods(false, true, false)), vec![0x1b, b'[', b'1', b';', b'5', b'A']);
}

#[test]
fn ctrl_arrow_down() {
    assert_eq!(encode_named_key(&NamedKey::ArrowDown, mods(false, true, false)), vec![0x1b, b'[', b'1', b';', b'5', b'B']);
}

#[test]
fn alt_arrow_right_is_word_forward() {
    assert_eq!(encode_named_key(&NamedKey::ArrowRight, mods(false, false, true)), vec![0x1b, b'b']);
}

#[test]
fn alt_arrow_left_is_word_backward() {
    assert_eq!(encode_named_key(&NamedKey::ArrowLeft, mods(false, false, true)), vec![0x1b, b'f']);
}

#[test]
fn f1_to_f4() {
    assert_eq!(encode_named_key(&NamedKey::F1, mods(false, false, false)), vec![0x1b, b'O', b'P']);
    assert_eq!(encode_named_key(&NamedKey::F2, mods(false, false, false)), vec![0x1b, b'O', b'Q']);
    assert_eq!(encode_named_key(&NamedKey::F3, mods(false, false, false)), vec![0x1b, b'O', b'R']);
    assert_eq!(encode_named_key(&NamedKey::F4, mods(false, false, false)), vec![0x1b, b'O', b'S']);
}

#[test]
fn f5_to_f12() {
    assert_eq!(encode_named_key(&NamedKey::F5, mods(false, false, false)), vec![0x1b, b'[', b'1', b'5', b'~']);
    assert_eq!(encode_named_key(&NamedKey::F12, mods(false, false, false)), vec![0x1b, b'[', b'2', b'4', b'~']);
}

#[test]
fn home_end_pageup_pagedown() {
    assert_eq!(encode_named_key(&NamedKey::Home, mods(false, false, false)), vec![0x1b, b'[', b'H']);
    assert_eq!(encode_named_key(&NamedKey::End, mods(false, false, false)), vec![0x1b, b'[', b'F']);
    assert_eq!(encode_named_key(&NamedKey::PageUp, mods(false, false, false)), vec![0x1b, b'[', b'5', b'~']);
    assert_eq!(encode_named_key(&NamedKey::PageDown, mods(false, false, false)), vec![0x1b, b'[', b'6', b'~']);
}

#[test]
fn space_is_space() {
    assert_eq!(encode_named_key(&NamedKey::Space, mods(false, false, false)), vec![b' ']);
}

// ── Further encodings ───────────────────────────────────────────────

#[test]
fn every_function_key() {
    let m = mods(false, false, false);
    assert_eq!(encode_named_key(&NamedKey::F6, m), b"\x1b[17~".to_vec());
    assert_eq!(encode_named_key(&NamedKey::F7, m), b"\x1b[18~".to_vec());
    assert_eq!(encode_named_key(&NamedKey::F8, m), b"\x1b[19~".to_vec());
    assert_eq!(encode_named_key(&NamedKey::F9, m), b"\x1b[20~".to_vec());
    assert_eq!(encode_named_key(&NamedKey::F10, m), b"\x1b[21~".to_vec());
    assert_eq!(encode_named_key(&NamedKey::F11, m), b"\x1b[23~".to_vec());
    assert_eq!(encode_named_key(&NamedKey::Other, m), Vec::<u8>::new());
}

#[test]
fn ctrl_arrows_left_and_right() {
    assert_eq!(encode_named_key(&NamedKey::ArrowRight, mods(false, true, false)), b"\x1b[1;5C".to_vec());
    assert_eq!(encode_named_key(&NamedKey::ArrowLeft, mods(false, true, true)), b"\x1b[1;5D".to_vec());
}

#[test]
fn ctrl_punctuation_and_non_letters() {
    assert_eq!(encode_key_character("[", true, false), vec![0x1b]);
    assert_eq!(encode_key_character("\\", true, false), vec![0x1c]);
    assert_eq!(encode_key_character("]", true, false), vec![0x1d]);
    assert_eq!(encode_key_character("^", true, false), vec![0x1e]);
    assert_eq!(encode_key_character("_", true, false), vec![0x1f]);
    assert_eq!(encode_key_character("C", true, false), vec![0x03]);
    assert_eq!(encode_key_character("1", true, false), b"1".to_vec());
    assert_eq!(encode_key_character("1", true, true), vec![0x1b, b'1']);
    assert_eq!(encode_key_character("", true, false), Vec::<u8>::new());
    assert_eq!(encode_key_character("", false, true), vec![0x1b]);
}

#[test]
fn text_is_sent_as_utf8() {
    assert_eq!(encode_key_character("\u{e9}", false, false), vec![0xc3, 0xa9]);
    assert_eq!(encode_key_character("\u{e9}", false, true), vec![0x1b, 0xc3, 0xa9]);
    assert_eq!(encode_key_character("\u{4e2d}\u{6587}", false, false), "\u{4e2d}\u{6587}".as_bytes().to_vec());
}

// ── handle_key_event ────────────────────────────────────────────────

fn press(key: Key) -> KeyEvent {
    KeyEvent { key, pressed: true }
}

fn ch(s: &str) -> Key {
    Key::Character(s.to_string())
}

fn cmd(shift: bool) -> Modifiers {
    Modifiers { shift, ctrl: false, alt: false, cmd: true }
}

const NONE: Modifiers = Modifiers { shift: false, ctrl: false, alt: false, cmd: false };

#[test]
fn key_encoding_scenario() {
    let ctrl = Modifiers { ctrl: true, ..NONE };
    let shift = Modifiers { shift: true, ..NONE };
    let alt = Modifiers { alt: true, ..NONE };
    assert_eq!(handle_key_event(&press(ch("c")), ctrl), InputAction::WriteBytes(vec![0x03]));
    assert_eq!(
        handle_key_event(&press(Key::Named(NamedKey::Tab)), shift),
        InputAction::WriteBytes(vec![0x1b, b'[', b'Z'])
    );
    assert_eq!(
        handle_key_event(&press(Key::Named(NamedKey::ArrowRight)), alt),
        InputAction::WriteBytes(vec![0x1b, b'b'])
    );
    assert_eq!(
        handle_key_event(&press(Key::Named(NamedKey::ArrowUp)), ctrl),
        InputAction::WriteBytes(vec![0x1b, b'[', b'1', b';', b'5', b'A'])
    );
}

#[test]
fn release_asks_for_nothing() {
    let event = KeyEvent { key: ch("a"), pressed: false };
    assert_eq!(handle_key_event(&event, NONE), InputAction::NoAction);
    let event = KeyEvent { key: Key::Named(NamedKey::Enter), pressed: false };
    assert_eq!(handle_key_event(&event, cmd(false)), InputAction::NoAction);
    assert_eq!(handle_key_event(&press(Key::Unidentified), NONE), InputAction::NoAction);
}

#[test]
fn command_shortcuts() {
    assert_eq!(handle_key_event(&press(ch("d")), cmd(false)), InputAction::SplitHorizontal);
    assert_eq!(handle_key_event(&press(ch("D")), cmd(true)), InputAction::SplitVertical);
    assert_eq!(handle_key_event(&press(ch("w")), cmd(false)), InputAction::ClosePane);
    assert_eq!(handle_key_event(&press(ch("]")), cmd(false)), InputAction::FocusNext);
    assert_eq!(handle_key_event(&press(ch("[")), cmd(true)), InputAction::FocusPrev);
    assert_eq!(handle_key_event(&press(ch(",")), cmd(false)), InputAction::OpenConfig);
    assert_eq!(handle_key_event(&press(ch("t")), cmd(false)), InputAction::NewTab);
    assert_eq!(handle_key_event(&press(ch("n")), cmd(false)), InputAction::NewWindow);
    assert_eq!(handle_key_event(&press(ch("L")), cmd(true)), InputAction::ToggleTheme);
    assert_eq!(handle_key_event(&press(ch("c")), cmd(false)), InputAction::CopySelection);
    assert_eq!(handle_key_event(&press(ch("v")), cmd(false)), InputAction::Paste);
    assert_eq!(handle_key_event(&press(ch("1")), cmd(false)), InputAction::SwitchTab(1));
    assert_eq!(handle_key_event(&press(ch("9")), cmd(false)), InputAction::SwitchTab(9));
    assert_eq!(handle_key_event(&press(ch("0")), cmd(false)), InputAction::NoAction);
    assert_eq!(handle_key_event(&press(ch("x")), cmd(false)), InputAction::NoAction);
    assert_eq!(handle_key_event(&press(ch("w")), cmd(true)), InputAction::NoAction);
    assert_eq!(handle_key_event(&press(Key::Named(NamedKey::Enter)), cmd(false)), InputAction::NoAction);
}

#[test]
fn control_f_maximizes() {
    let ctrl = Modifiers { ctrl: true, ..NONE };
    assert_eq!(handle_key_event(&press(ch("f")), ctrl), InputAction::Maximize);
    let ctrl_shift = Modifiers { ctrl: true, shift: true, ..NONE };
    assert_eq!(handle_key_event(&press(ch("F")), ctrl_shift), InputAction::WriteBytes(vec![0x06]));
}

#[test]
fn plain_text_goes_to_the_shell() {
    assert_eq!(handle_key_event(&press(ch("D")), NONE), InputAction::WriteBytes(b"D".to_vec()));
    assert_eq!(
        handle_key_event(&press(ch("\u{e9}")), Modifiers { alt: true, ..NONE }),
        InputAction::WriteBytes(vec![0x1b, 0xc3, 0xa9])
    );
}

#[test]
fn named_key_actions() {
    let shift = Modifiers { shift: true, ..NONE };
    let ctrl = Modifiers { ctrl: true, ..NONE };
    let ctrl_alt = Modifiers { ctrl: true, alt: true, ..NONE };
    let named = |k| press(Key::Named(k));
    assert_eq!(handle_key_event(&named(NamedKey::ArrowLeft), shift), InputAction::FocusLeft);
    assert_eq!(handle_key_event(&named(NamedKey::ArrowRight), shift), InputAction::FocusRight);
    assert_eq!(handle_key_event(&named(NamedKey::ArrowUp), shift), InputAction::FocusUp);
    assert_eq!(handle_key_event(&named(NamedKey::ArrowDown), shift), InputAction::FocusDown);
    assert_eq!(handle_key_event(&named(NamedKey::End), ctrl), InputAction::TileRight);
    assert_eq!(handle_key_event(&named(NamedKey::Home), ctrl), InputAction::TileLeft);
    assert_eq!(handle_key_event(&named(NamedKey::PageUp), ctrl), InputAction::Maximize);
    assert_eq!(handle_key_event(&named(NamedKey::PageDown), ctrl), InputAction::RestoreWindow);
    assert_eq!(handle_key_event(&named(NamedKey::ArrowLeft), ctrl_alt), InputAction::ResizePaneLeft);
    assert_eq!(handle_key_event(&named(NamedKey::ArrowRight), ctrl_alt), InputAction::ResizePaneRight);
    assert_eq!(handle_key_event(&named(NamedKey::ArrowUp), ctrl_alt), InputAction::ResizePaneUp);
    assert_eq!(handle_key_event(&named(NamedKey::ArrowDown), ctrl_alt), InputAction::ResizePaneDown);
    assert_eq!(handle_key_event(&named(NamedKey::ArrowUp), cmd(false)), InputAction::ScrollViewUp);
    assert_eq!(handle_key_event(&named(NamedKey::ArrowDown), cmd(false)), InputAction::ScrollViewDown);
    assert_eq!(handle_key_event(&named(NamedKey::Enter), NONE), InputAction::WriteBytes(vec![b'\r']));
    assert_eq!(handle_key_event(&named(NamedKey::Other), NONE), InputAction::WriteBytes(vec![]));
}
