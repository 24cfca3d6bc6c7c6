//! Keyboard input: which action a key press asks for, and the bytes that a
//! key sends to the shell.
//!
//! The byte sequences are those of the xterm family, so that readline and
//! editors behave as under any other terminal.

use vstd::prelude::*;

verus! {

/// The keys with a name that the terminal knows.
#[derive(Debug, Clone, Copy, PartialEq, Eq, Structural)]
pub enum NamedKey {
    Space,
    Enter,
    Tab,
    Backspace,
    Delete,
    Escape,
    ArrowUp,
    ArrowDown,
    ArrowLeft,
    ArrowRight,
    Home,
    End,
    PageUp,
    PageDown,
    F1,
    F2,
    F3,
    F4,
    F5,
    F6,
    F7,
    F8,
    F9,
    F10,
    F11,
    F12,
    /// Any other named key; it sends nothing.
    Other,
}

/// The logical key of a keyboard event.
#[derive(Debug, Clone, PartialEq, Eq)]
pub enum Key {
    /// A key that produces text.
    Character(String),
    /// A key with a name.
    Named(NamedKey),
    /// A key that the terminal does not know, or a dead key.
    Unidentified,
}

/// The modifier keys that are held down.
#[derive(Debug, Clone, Copy, PartialEq, Eq, Structural)]
pub struct Modifiers {
    pub shift: bool,
    pub ctrl: bool,
    pub alt: bool,
    /// The command key (the "super" key of other platforms).
    pub cmd: bool,
}

/// A keyboard event: a key that went down (`pressed`) or up.
#[derive(Debug, Clone, PartialEq, Eq)]
pub struct KeyEvent {
    pub key: Key,
    pub pressed: bool,
}

/// What the application does in answer to input.
#[derive(Debug, Clone, PartialEq, Eq)]
pub enum InputAction {
    WriteBytes(Vec<u8>),
    SplitHorizontal,
    SplitVertical,
    ClosePane,
    FocusNext,
    FocusPrev,
    FocusLeft,
    FocusRight,
    FocusUp,
    FocusDown,
    OpenConfig,
    NewTab,
    NewWindow,
    SwitchTab(usize),
    TileLeft,
    TileRight,
    Maximize,
    RestoreWindow,
    ScrollViewUp,
    ScrollViewDown,
    CopySelection,
    Paste,
    ResizePaneLeft,
    ResizePaneRight,
    ResizePaneUp,
    ResizePaneDown,
    ToggleTheme,
    /// The input asks for nothing.
    NoAction,
}

/// The mathematical model of an [`InputAction`].
pub enum ActionModel {
    WriteBytes(Seq<u8>),
    SplitHorizontal,
    SplitVertical,
    ClosePane,
    FocusNext,
    FocusPrev,
    FocusLeft,
    FocusRight,
    FocusUp,
    FocusDown,
    OpenConfig,
    NewTab,
    NewWindow,
    SwitchTab(usize),
    TileLeft,
    TileRight,
    Maximize,
    RestoreWindow,
    ScrollViewUp,
    ScrollViewDown,
    CopySelection,
    Paste,
    ResizePaneLeft,
    ResizePaneRight,
    ResizePaneUp,
    ResizePaneDown,
    ToggleTheme,
    /// The input asks for nothing.
    NoAction,
}

impl View for InputAction {
    type V = ActionModel;

    open spec fn view(&self) -> ActionModel {
        match *self {
            InputAction::WriteBytes(bytes) => ActionModel::WriteBytes(bytes@),
            InputAction::SplitHorizontal => ActionModel::SplitHorizontal,
            InputAction::SplitVertical => ActionModel::SplitVertical,
            InputAction::ClosePane => ActionModel::ClosePane,
            InputAction::FocusNext => ActionModel::FocusNext,
            InputAction::FocusPrev => ActionModel::FocusPrev,
            InputAction::FocusLeft => ActionModel::FocusLeft,
            InputAction::FocusRight => ActionModel::FocusRight,
            InputAction::FocusUp => ActionModel::FocusUp,
            InputAction::FocusDown => ActionModel::FocusDown,
            InputAction::OpenConfig => ActionModel::OpenConfig,
            InputAction::NewTab => ActionModel::NewTab,
            InputAction::NewWindow => ActionModel::NewWindow,
            InputAction::SwitchTab(n) => ActionModel::SwitchTab(n),
            InputAction::TileLeft => ActionModel::TileLeft,
            InputAction::TileRight => ActionModel::TileRight,
            InputAction::Maximize => ActionModel::Maximize,
            InputAction::RestoreWindow => ActionModel::RestoreWindow,
            InputAction::ScrollViewUp => ActionModel::ScrollViewUp,
            InputAction::ScrollViewDown => ActionModel::ScrollViewDown,
            InputAction::CopySelection => ActionModel::CopySelection,
            InputAction::Paste => ActionModel::Paste,
            InputAction::ResizePaneLeft => ActionModel::ResizePaneLeft,
            InputAction::ResizePaneRight => ActionModel::ResizePaneRight,
            InputAction::ResizePaneUp => ActionModel::ResizePaneUp,
            InputAction::ResizePaneDown => ActionModel::ResizePaneDown,
            InputAction::ToggleTheme => ActionModel::ToggleTheme,
            InputAction::NoAction => ActionModel::NoAction,
        }
    }
}

/// `c` with an ASCII lower-case letter made upper case.
pub open spec fn ascii_upper(c: char) -> char {
    if 'a' <= c <= 'z' {
        ((c as u32) - 32) as char
    } else {
        c
    }
}

/// `c` with an ASCII upper-case letter made lower case.
pub open spec fn ascii_lower(c: char) -> char {
    if 'A' <= c <= 'Z' {
        ((c as u32) + 32) as char
    } else {
        c
    }
}

/// Whether the control key turns `c` into a control code: the letters and
/// `[ \ ] ^ _`.
pub open spec fn has_control_code(c: char) -> bool {
    'A' <= ascii_upper(c) <= '_'
}

/// The control code of `c`: its upper-case form less `'A'`, plus 1.
pub open spec fn control_code(c: char) -> u8 {
    ((ascii_upper(c) as u32) - 0x40) as u8
}

/// The bytes that the text `text` of a key sends: with the control key,
/// the control code of its first character, where that has one; else, with
/// the alt key, ESC and the text in UTF-8; else the text in UTF-8.
pub open spec fn key_character_bytes(text: Seq<char>, ctrl: bool, alt: bool) -> Seq<u8> {
    if ctrl && text.len() > 0 && has_control_code(text[0]) {
        seq![control_code(text[0])]
    } else if alt {
        seq![0x1bu8] + vstd::utf8::encode_utf8(text)
    } else {
        vstd::utf8::encode_utf8(text)
    }
}

/// `CSI` followed by `tail`.
pub open spec fn csi(tail: Seq<u8>) -> Seq<u8> {
    seq![0x1bu8, 0x5bu8] + tail
}

/// The final byte of the sequence of an arrow key.
pub open spec fn arrow_final(key: NamedKey) -> u8 {
    match key {
        NamedKey::ArrowUp => 0x41,
        NamedKey::ArrowDown => 0x42,
        NamedKey::ArrowRight => 0x43,
        _ => 0x44,
    }
}

/// The bytes that a named key sends.
pub open spec fn named_key_bytes(key: NamedKey, modifiers: Modifiers) -> Seq<u8> {
    match key {
        NamedKey::Space => seq![0x20u8],
        NamedKey::Enter => seq![0x0du8],
        NamedKey::Tab => if modifiers.shift {
            csi(seq![0x5au8])
        } else {
            seq![0x09u8]
        },
        NamedKey::Backspace => seq![0x7fu8],
        NamedKey::Delete => csi(seq![0x33u8, 0x7eu8]),
        NamedKey::Escape => seq![0x1bu8],
        NamedKey::ArrowUp | NamedKey::ArrowDown => if modifiers.ctrl {
            csi(seq![0x31u8, 0x3bu8, 0x35u8, arrow_final(key)])
        } else {
            csi(seq![arrow_final(key)])
        },
        NamedKey::ArrowRight => if modifiers.ctrl {
            csi(seq![0x31u8, 0x3bu8, 0x35u8, 0x43u8])
        } else if modifiers.alt {
            seq![0x1bu8, 0x62u8]
        } else {
            csi(seq![0x43u8])
        },
        NamedKey::ArrowLeft => if modifiers.ctrl {
            csi(seq![0x31u8, 0x3bu8, 0x35u8, 0x44u8])
        } else if modifiers.alt {
            seq![0x1bu8, 0x66u8]
        } else {
            csi(seq![0x44u8])
        },
        NamedKey::Home => csi(seq![0x48u8]),
        NamedKey::End => csi(seq![0x46u8]),
        NamedKey::PageUp => csi(seq![0x35u8, 0x7eu8]),
        NamedKey::PageDown => csi(seq![0x36u8, 0x7eu8]),
        NamedKey::F1 => seq![0x1bu8, 0x4fu8, 0x50u8],
        NamedKey::F2 => seq![0x1bu8, 0x4fu8, 0x51u8],
        NamedKey::F3 => seq![0x1bu8, 0x4fu8, 0x52u8],
        NamedKey::F4 => seq![0x1bu8, 0x4fu8, 0x53u8],
        NamedKey::F5 => csi(seq![0x31u8, 0x35u8, 0x7eu8]),
        NamedKey::F6 => csi(seq![0x31u8, 0x37u8, 0x7eu8]),
        NamedKey::F7 => csi(seq![0x31u8, 0x38u8, 0x7eu8]),
        NamedKey::F8 => csi(seq![0x31u8, 0x39u8, 0x7eu8]),
        NamedKey::F9 => csi(seq![0x32u8, 0x30u8, 0x7eu8]),
        NamedKey::F10 => csi(seq![0x32u8, 0x31u8, 0x7eu8]),
        NamedKey::F11 => csi(seq![0x32u8, 0x33u8, 0x7eu8]),
        NamedKey::F12 => csi(seq![0x32u8, 0x34u8, 0x7eu8]),
        NamedKey::Other => Seq::empty(),
    }
}

/// The action of a key that produces the text `text`, pressed with
/// `modifiers`. The shortcuts go by the lower-case form of a single
/// character; the first rule that fits decides.
pub open spec fn character_action(text: Seq<char>, modifiers: Modifiers) -> ActionModel {
    let Modifiers { shift, ctrl, alt, cmd } = modifiers;
    let single = text.len() == 1;
    let lc = if single {
        ascii_lower(text[0])
    } else {
        '\0'
    };
    if single && cmd && !shift && lc == 'd' {
        ActionModel::SplitHorizontal
    } else if single && cmd && shift && lc == 'd' {
        ActionModel::SplitVertical
    } else if single && cmd && !shift && lc == 'w' {
        ActionModel::ClosePane
    } else if single && cmd && lc == ']' {
        ActionModel::FocusNext
    } else if single && cmd && lc == '[' {
        ActionModel::FocusPrev
    } else if single && cmd && lc == ',' {
        ActionModel::OpenConfig
    } else if single && cmd && !shift && lc == 't' {
        ActionModel::NewTab
    } else if single && cmd && !shift && lc == 'n' {
        ActionModel::NewWindow
    } else if single && cmd && shift && !ctrl && lc == 'l' {
        ActionModel::ToggleTheme
    } else if single && cmd && !shift && !ctrl && lc == 'c' {
        ActionModel::CopySelection
    } else if single && cmd && !shift && !ctrl && lc == 'v' {
        ActionModel::Paste
    } else if single && cmd && !shift && !ctrl && !alt && '1' <= lc <= '9' {
        ActionModel::SwitchTab(((lc as u32) - 0x30) as usize)
    } else if single && ctrl && !shift && !cmd && !alt && lc == 'f' {
        ActionModel::Maximize
    } else if cmd {
        ActionModel::NoAction
    } else {
        ActionModel::WriteBytes(key_character_bytes(text, ctrl, alt))
    }
}

/// The action of a named key pressed with `modifiers`: shift with an arrow
/// moves the focus, control with Home, End, PageUp or PageDown tiles the
/// window, control and alt with an arrow resize the pane, command with up
/// or down scroll the view; any other key with command does nothing, and
/// without it sends its bytes.
pub open spec fn named_action(key: NamedKey, modifiers: Modifiers) -> ActionModel {
    let Modifiers { shift, ctrl, alt, cmd } = modifiers;
    if shift && key == NamedKey::ArrowLeft {
        ActionModel::FocusLeft
    } else if shift && key == NamedKey::ArrowRight {
        ActionModel::FocusRight
    } else if shift && key == NamedKey::ArrowUp {
        ActionModel::FocusUp
    } else if shift && key == NamedKey::ArrowDown {
        ActionModel::FocusDown
    } else if ctrl && !shift && !cmd && key == NamedKey::End {
        ActionModel::TileRight
    } else if ctrl && !shift && !cmd && key == NamedKey::Home {
        ActionModel::TileLeft
    } else if ctrl && !shift && !cmd && key == NamedKey::PageUp {
        ActionModel::Maximize
    } else if ctrl && !shift && !cmd && key == NamedKey::PageDown {
        ActionModel::RestoreWindow
    } else if ctrl && alt && !cmd && !shift && key == NamedKey::ArrowLeft {
        ActionModel::ResizePaneLeft
    } else if ctrl && alt && !cmd && !shift && key == NamedKey::ArrowRight {
        ActionModel::ResizePaneRight
    } else if ctrl && alt && !cmd && !shift && key == NamedKey::ArrowUp {
        ActionModel::ResizePaneUp
    } else if ctrl && alt && !cmd && !shift && key == NamedKey::ArrowDown {
        ActionModel::ResizePaneDown
    } else if cmd && !shift && !ctrl && key == NamedKey::ArrowUp {
        ActionModel::ScrollViewUp
    } else if cmd && !shift && !ctrl && key == NamedKey::ArrowDown {
        ActionModel::ScrollViewDown
    } else if cmd {
        ActionModel::NoAction
    } else {
        ActionModel::WriteBytes(named_key_bytes(key, modifiers))
    }
}

/// What a key looks like to the contracts.
pub enum KeyModel {
    Character(Seq<char>),
    Named(NamedKey),
    Unidentified,
}

impl View for Key {
    type V = KeyModel;

    open spec fn view(&self) -> KeyModel {
        match *self {
            Key::Character(text) => KeyModel::Character(text@),
            Key::Named(key) => KeyModel::Named(key),
            Key::Unidentified => KeyModel::Unidentified,
        }
    }
}

/// The action of a keyboard event: none for a release and for a key that
/// is not known.
pub open spec fn key_event_action(key: KeyModel, pressed: bool, modifiers: Modifiers) -> ActionModel {
    if !pressed {
        ActionModel::NoAction
    } else {
        match key {
            KeyModel::Character(text) => character_action(text, modifiers),
            KeyModel::Named(named) => named_action(named, modifiers),
            KeyModel::Unidentified => ActionModel::NoAction,
        }
    }
}

/// The bytes that a key with the text `ch` sends to the shell, see
/// [`key_character_bytes`].
pub fn encode_key_character(ch: &str, ctrl: bool, alt: bool) -> (bytes: Vec<u8>)
    ensures
        bytes@ == key_character_bytes(ch@, ctrl, alt),
{
    if ctrl && ch.unicode_len() > 0 {
        let c = ch.get_char(0);
        let upper = if 'a' <= c && c <= 'z' {
            (c as u32) - 32
        } else {
            c as u32
        };
        if 0x41 <= upper && upper <= 0x5f {
            let mut bytes: Vec<u8> = Vec::new();
            bytes.push((upper - 0x40) as u8);
            assert(bytes@ =~= seq![control_code(ch@[0])]);
            return bytes;
        }
    }
    let text = ch.as_bytes_vec();
    if alt {
        let mut bytes: Vec<u8> = Vec::new();
        bytes.push(0x1b);
        let mut i: usize = 0;
        while i < text.len()
            invariant
                i <= text.len(),
                bytes@ == seq![0x1bu8] + text@.subrange(0, i as int),
            decreases text.len() - i,
        {
            bytes.push(text[i]);
            assert(bytes@ =~= seq![0x1bu8] + text@.subrange(0, i + 1));
            i += 1;
        }
        assert(text@.subrange(0, text.len() as int) =~= text@);
        bytes
    } else {
        text
    }
}

/// `CSI 1 ; 5` and the final byte `last`: an arrow key with control.
fn control_arrow(last: u8) -> (bytes: Vec<u8>)
    ensures
        bytes@ == csi(seq![0x31u8, 0x3bu8, 0x35u8, last]),
{
    let bytes = vec![0x1bu8, 0x5bu8, 0x31u8, 0x3bu8, 0x35u8, last];
    assert(bytes@ =~= csi(seq![0x31u8, 0x3bu8, 0x35u8, last]));
    bytes
}

/// `CSI` and one byte.
fn csi_short(last: u8) -> (bytes: Vec<u8>)
    ensures
        bytes@ == csi(seq![last]),
{
    let bytes = vec![0x1bu8, 0x5bu8, last];
    assert(bytes@ =~= csi(seq![last]));
    bytes
}

/// `CSI`, one byte, and `~`.
fn csi_tilde(digit: u8) -> (bytes: Vec<u8>)
    ensures
        bytes@ == csi(seq![digit, 0x7eu8]),
{
    let bytes = vec![0x1bu8, 0x5bu8, digit, 0x7eu8];
    assert(bytes@ =~= csi(seq![digit, 0x7eu8]));
    bytes
}

/// `CSI`, two digits, and `~`: the function keys from F5 on.
fn csi_function(tens: u8, ones: u8) -> (bytes: Vec<u8>)
    ensures
        bytes@ == csi(seq![tens, ones, 0x7eu8]),
{
    let bytes = vec![0x1bu8, 0x5bu8, tens, ones, 0x7eu8];
    assert(bytes@ =~= csi(seq![tens, ones, 0x7eu8]));
    bytes
}

/// `ESC O` and one byte: the function keys F1 to F4.
fn ss3(last: u8) -> (bytes: Vec<u8>)
    ensures
        bytes@ == seq![0x1bu8, 0x4fu8, last],
{
    vec![0x1bu8, 0x4fu8, last]
}

/// The bytes that a named key sends to the shell, see [`named_key_bytes`]:
/// Enter is CR, Tab is HT and with shift `CSI Z`, Backspace is DEL, the
/// arrows are `CSI A` to `CSI D`, with control `CSI 1;5 A` to `CSI 1;5 D`,
/// and so on. A key without a sequence sends nothing.
pub fn encode_named_key(key: &NamedKey, modifiers: Modifiers) -> (bytes: Vec<u8>)
    ensures
        bytes@ == named_key_bytes(*key, modifiers),
{
    match *key {
        NamedKey::Space => vec![0x20u8],
        NamedKey::Enter => vec![0x0du8],
        NamedKey::Tab => {
            if modifiers.shift {
                csi_short(0x5a)
            } else {
                vec![0x09u8]
            }
        },
        NamedKey::Backspace => vec![0x7fu8],
        NamedKey::Delete => csi_tilde(0x33),
        NamedKey::Escape => vec![0x1bu8],
        NamedKey::ArrowUp => {
            if modifiers.ctrl {
                control_arrow(0x41)
            } else {
                csi_short(0x41)
            }
        },
        NamedKey::ArrowDown => {
            if modifiers.ctrl {
                control_arrow(0x42)
            } else {
                csi_short(0x42)
            }
        },
        NamedKey::ArrowRight => {
            if modifiers.ctrl {
                control_arrow(0x43)
            } else if modifiers.alt {
                vec![0x1bu8, 0x62u8]
            } else {
                csi_short(0x43)
            }
        },
        NamedKey::ArrowLeft => {
            if modifiers.ctrl {
                control_arrow(0x44)
            } else if modifiers.alt {
                vec![0x1bu8, 0x66u8]
            } else {
                csi_short(0x44)
            }
        },
        NamedKey::Home => csi_short(0x48),
        NamedKey::End => csi_short(0x46),
        NamedKey::PageUp => csi_tilde(0x35),
        NamedKey::PageDown => csi_tilde(0x36),
        NamedKey::F1 => ss3(0x50),
        NamedKey::F2 => ss3(0x51),
        NamedKey::F3 => ss3(0x52),
        NamedKey::F4 => ss3(0x53),
        NamedKey::F5 => csi_function(0x31, 0x35),
        NamedKey::F6 => csi_function(0x31, 0x37),
        NamedKey::F7 => csi_function(0x31, 0x38),
        NamedKey::F8 => csi_function(0x31, 0x39),
        NamedKey::F9 => csi_function(0x32, 0x30),
        NamedKey::F10 => csi_function(0x32, 0x31),
        NamedKey::F11 => csi_function(0x32, 0x33),
        NamedKey::F12 => csi_function(0x32, 0x34),
        NamedKey::Other => Vec::new(),
    }
}

/// The action of a key that produces `text`, see [`character_action`].
fn handle_character(text: &str, modifiers: Modifiers) -> (action: InputAction)
    ensures
        action@ == character_action(text@, modifiers),
{
    let Modifiers { shift, ctrl, alt, cmd } = modifiers;
    if text.unicode_len() == 1 {
        let c = text.get_char(0);
        let lc = if 'A' <= c && c <= 'Z' {
            (c as u32) + 32
        } else {
            c as u32
        };
        assert(lc == ascii_lower(c) as u32);
        if cmd && !shift && lc == 0x64 {
            return InputAction::SplitHorizontal;
        }
        if cmd && shift && lc == 0x64 {
            return InputAction::SplitVertical;
        }
        if cmd && !shift && lc == 0x77 {
            return InputAction::ClosePane;
        }
        if cmd && lc == 0x5d {
            return InputAction::FocusNext;
        }
        if cmd && lc == 0x5b {
            return InputAction::FocusPrev;
        }
        if cmd && lc == 0x2c {
            return InputAction::OpenConfig;
        }
        if cmd && !shift && lc == 0x74 {
            return InputAction::NewTab;
        }
        if cmd && !shift && lc == 0x6e {
            return InputAction::NewWindow;
        }
        if cmd && shift && !ctrl && lc == 0x6c {
            return InputAction::ToggleTheme;
        }
        if cmd && !shift && !ctrl && lc == 0x63 {
            return InputAction::CopySelection;
        }
        if cmd && !shift && !ctrl && lc == 0x76 {
            return InputAction::Paste;
        }
        if cmd && !shift && !ctrl && !alt && 0x31 <= lc && lc <= 0x39 {
            return InputAction::SwitchTab((lc - 0x30) as usize);
        }
        if ctrl && !shift && !cmd && !alt && lc == 0x66 {
            return InputAction::Maximize;
        }
    }
    if cmd {
        return InputAction::NoAction;
    }
    InputAction::WriteBytes(encode_key_character(text, ctrl, alt))
}

/// The action of a named key, see [`named_action`].
fn handle_named(key: NamedKey, modifiers: Modifiers) -> (action: InputAction)
    ensures
        action@ == named_action(key, modifiers),
{
    let Modifiers { shift, ctrl, alt, cmd } = modifiers;
    if shift {
        match key {
            NamedKey::ArrowLeft => {
                return InputAction::FocusLeft;
            },
            NamedKey::ArrowRight => {
                return InputAction::FocusRight;
            },
            NamedKey::ArrowUp => {
                return InputAction::FocusUp;
            },
            NamedKey::ArrowDown => {
                return InputAction::FocusDown;
            },
            _ => {},
        }
    }
    if ctrl && !shift && !cmd {
        match key {
            NamedKey::End => {
                return InputAction::TileRight;
            },
            NamedKey::Home => {
                return InputAction::TileLeft;
            },
            NamedKey::PageUp => {
                return InputAction::Maximize;
            },
            NamedKey::PageDown => {
                return InputAction::RestoreWindow;
            },
            _ => {},
        }
    }
    if ctrl && alt && !cmd && !shift {
        match key {
            NamedKey::ArrowLeft => {
                return InputAction::ResizePaneLeft;
            },
            NamedKey::ArrowRight => {
                return InputAction::ResizePaneRight;
            },
            NamedKey::ArrowUp => {
                return InputAction::ResizePaneUp;
            },
            NamedKey::ArrowDown => {
                return InputAction::ResizePaneDown;
            },
            _ => {},
        }
    }
    if cmd && !shift && !ctrl {
        match key {
            NamedKey::ArrowUp => {
                return InputAction::ScrollViewUp;
            },
            NamedKey::ArrowDown => {
                return InputAction::ScrollViewDown;
            },
            _ => {},
        }
    }
    if cmd {
        return InputAction::NoAction;
    }
    InputAction::WriteBytes(encode_named_key(&key, modifiers))
}

/// Decides what a keyboard event asks for. A release asks for nothing. A
/// press is first held against the shortcuts of the application; a key
/// that is none of them sends its bytes to the shell, unless the command
/// key is down.
pub fn handle_key_event(event: &KeyEvent, modifiers: Modifiers) -> (action: InputAction)
    ensures
        action@ == key_event_action(event.key@, event.pressed, modifiers),
{
    if !event.pressed {
        return InputAction::NoAction;
    }
    match &event.key {
        Key::Character(text) => handle_character(text.as_str(), modifiers),
        Key::Named(named) => handle_named(*named, modifiers),
        Key::Unidentified => InputAction::NoAction,
    }
}

} // verus!
