//! The interpreter of control sequences: what each action that the VT state
//! machine dispatches does to the screen.
//!
//! [`PerformerModel`] gives the meaning of every action as a function from
//! state to state; [`VtePerformer`] carries the actions out on a
//! [`TerminalGrid`] and is proved to agree with the model.

use vstd::prelude::*;
use crate::terminal::cell::{Cell, CellAttributes, Color};
use crate::terminal::grid::{
    bump, cell_chars, fill_cells, filled, rows_view, trimmed_end, GridModel, TerminalGrid,
};
use crate::terminal::screen::max_int;
use unicode_width::UnicodeWidthChar;

verus! {

/// The low eight bits of a parameter.
pub open spec fn low_byte(v: u16) -> u8 {
    (v % 256) as u8
}

/// The attributes after one rendition code without arguments.
pub open spec fn sgr_code(attrs: CellAttributes, code: u16) -> CellAttributes {
    if code == 0 {
        CellAttributes::plain()
    } else if code == 1 {
        CellAttributes { bold: true, ..attrs }
    } else if code == 2 {
        CellAttributes { dim: true, ..attrs }
    } else if code == 3 {
        CellAttributes { italic: true, ..attrs }
    } else if code == 4 {
        CellAttributes { underline: true, ..attrs }
    } else if code == 5 || code == 6 {
        CellAttributes { blink: true, ..attrs }
    } else if code == 7 {
        CellAttributes { reverse: true, ..attrs }
    } else if code == 8 {
        CellAttributes { invisible: true, ..attrs }
    } else if code == 9 {
        CellAttributes { strikethrough: true, ..attrs }
    } else if code == 22 {
        CellAttributes { bold: false, dim: false, ..attrs }
    } else if code == 23 {
        CellAttributes { italic: false, ..attrs }
    } else if code == 24 {
        CellAttributes { underline: false, ..attrs }
    } else if code == 25 {
        CellAttributes { blink: false, ..attrs }
    } else if code == 27 {
        CellAttributes { reverse: false, ..attrs }
    } else if code == 28 {
        CellAttributes { invisible: false, ..attrs }
    } else if code == 29 {
        CellAttributes { strikethrough: false, ..attrs }
    } else if 30 <= code <= 37 {
        CellAttributes { fg: Color::Indexed((code - 30) as u8), ..attrs }
    } else if code == 39 {
        CellAttributes { fg: Color::Default, ..attrs }
    } else if 40 <= code <= 47 {
        CellAttributes { bg: Color::Indexed((code - 40) as u8), ..attrs }
    } else if code == 49 {
        CellAttributes { bg: Color::Default, ..attrs }
    } else if 90 <= code <= 97 {
        CellAttributes { fg: Color::Indexed((code - 90 + 8) as u8), ..attrs }
    } else if 100 <= code <= 107 {
        CellAttributes { bg: Color::Indexed((code - 100 + 8) as u8), ..attrs }
    } else {
        attrs
    }
}

/// `attrs` with the foreground (`foreground`) or the background set to
/// `color`.
pub open spec fn with_color(attrs: CellAttributes, foreground: bool, color: Color) -> CellAttributes {
    if foreground {
        CellAttributes { fg: color, ..attrs }
    } else {
        CellAttributes { bg: color, ..attrs }
    }
}

/// The attributes after the rendition codes `params[i..]`. The codes 38 and
/// 48 take the parameters behind them: `5; n` for a palette entry, `2; r; g;
/// b` for a direct colour; where those are missing the code is skipped.
pub open spec fn sgr_from(attrs: CellAttributes, params: Seq<u16>, i: int) -> CellAttributes
    decreases params.len() - i,
{
    if i < 0 || i >= params.len() {
        attrs
    } else if params[i] == 38 || params[i] == 48 {
        if i + 2 < params.len() && params[i + 1] == 5 {
            sgr_from(
                with_color(attrs, params[i] == 38, Color::Indexed(low_byte(params[i + 2]))),
                params,
                i + 3,
            )
        } else if i + 4 < params.len() && params[i + 1] == 2 {
            sgr_from(
                with_color(
                    attrs,
                    params[i] == 38,
                    Color::Rgb(
                        low_byte(params[i + 2]),
                        low_byte(params[i + 3]),
                        low_byte(params[i + 4]),
                    ),
                ),
                params,
                i + 5,
            )
        } else {
            sgr_from(attrs, params, i + 1)
        }
    } else {
        sgr_from(sgr_code(attrs, params[i]), params, i + 1)
    }
}

/// The attributes after `CSI params m`: no parameter at all resets them.
pub open spec fn sgr(attrs: CellAttributes, params: Seq<u16>) -> CellAttributes {
    if params.len() == 0 {
        CellAttributes::plain()
    } else {
        sgr_from(attrs, params, 0)
    }
}

/// Applies one rendition code without arguments.
fn apply_sgr_code(attrs: &mut CellAttributes, code: u16)
    ensures
        *final(attrs) == sgr_code(*old(attrs), code),
{
    if code == 0 {
        *attrs = CellAttributes::default();
    } else if code == 1 {
        attrs.bold = true;
    } else if code == 2 {
        attrs.dim = true;
    } else if code == 3 {
        attrs.italic = true;
    } else if code == 4 {
        attrs.underline = true;
    } else if code == 5 || code == 6 {
        attrs.blink = true;
    } else if code == 7 {
        attrs.reverse = true;
    } else if code == 8 {
        attrs.invisible = true;
    } else if code == 9 {
        attrs.strikethrough = true;
    } else if code == 22 {
        attrs.bold = false;
        attrs.dim = false;
    } else if code == 23 {
        attrs.italic = false;
    } else if code == 24 {
        attrs.underline = false;
    } else if code == 25 {
        attrs.blink = false;
    } else if code == 27 {
        attrs.reverse = false;
    } else if code == 28 {
        attrs.invisible = false;
    } else if code == 29 {
        attrs.strikethrough = false;
    } else if 30 <= code && code <= 37 {
        attrs.fg = Color::Indexed((code - 30) as u8);
    } else if code == 39 {
        attrs.fg = Color::Default;
    } else if 40 <= code && code <= 47 {
        attrs.bg = Color::Indexed((code - 40) as u8);
    } else if code == 49 {
        attrs.bg = Color::Default;
    } else if 90 <= code && code <= 97 {
        attrs.fg = Color::Indexed((code - 90 + 8) as u8);
    } else if 100 <= code && code <= 107 {
        attrs.bg = Color::Indexed((code - 100 + 8) as u8);
    }
}

/// The low eight bits of a parameter.
fn low(v: u16) -> (b: u8)
    ensures
        b == low_byte(v),
{
    (v % 256) as u8
}

/// Select graphic rendition: applies the codes `params` to `attrs`, in
/// order. No parameter at all, like the code 0, resets every attribute;
/// unknown codes are skipped.
pub fn apply_sgr(attrs: &mut CellAttributes, params: &[u16])
    ensures
        *final(attrs) == sgr(*old(attrs), params@),
{
    if params.len() == 0 {
        *attrs = CellAttributes::default();
        return ;
    }
    let mut i: usize = 0;
    while i < params.len()
        invariant
            i <= params.len(),
            sgr_from(*attrs, params@, i as int) == sgr_from(*old(attrs), params@, 0),
        decreases params.len() - i,
    {
        let code = params[i];
        if code == 38 || code == 48 {
            if params.len() - i > 2 && params[i + 1] == 5 {
                let color = Color::Indexed(low(params[i + 2]));
                if code == 38 {
                    attrs.fg = color;
                } else {
                    attrs.bg = color;
                }
                i += 3;
            } else if params.len() - i > 4 && params[i + 1] == 2 {
                let color = Color::Rgb(low(params[i + 2]), low(params[i + 3]), low(params[i + 4]));
                if code == 38 {
                    attrs.fg = color;
                } else {
                    attrs.bg = color;
                }
                i += 5;
            } else {
                i += 1;
            }
        } else {
            apply_sgr_code(attrs, code);
            i += 1;
        }
    }
}

/// The width in columns that the `unicode-width` tables give a character,
/// `None` for a control character.
pub uninterp spec fn unicode_width(c: char) -> Option<usize>;

/// The number of columns a printed character takes: its width by the
/// Unicode tables, and one column where they give none or zero.
pub open spec fn display_width(c: char) -> int {
    match unicode_width(c) {
        Some(w) => max_int(w as int, 1),
        None => 1,
    }
}

/// Whether `c` is a control character: U+0000 to U+001F and U+007F to
/// U+009F.
pub open spec fn is_control_char(c: char) -> bool {
    (c as u32) < 0x20 || 0x7F <= (c as u32) < 0xA0
}

/// `UnicodeWidthChar::width` of the crate `unicode-width`: the width of `c`
/// in columns by the Unicode tables. It is `None` for the control
/// characters and for no others, 1 for the printable ASCII characters, and
/// never more than 3.
#[verifier::external_body]
fn char_width(c: char) -> (w: Option<usize>)
    ensures
        w == unicode_width(c),
        w is None <==> is_control_char(c),
        w matches Some(n) ==> n <= 3,
        0x20 <= c as u32 && (c as u32) < 0x7F ==> w == Some(1usize),
{
    c.width()
}

/// The number of columns that `c` takes on the screen, see
/// [`display_width`].
pub fn columns_of(c: char) -> (columns: usize)
    ensures
        columns == display_width(c),
        1 <= columns <= 3,
        is_control_char(c) ==> columns == 1,
        0x20 <= c as u32 && (c as u32) < 0x7F ==> columns == 1,
{
    match char_width(c) {
        Some(w) => if w < 1 {
            1
        } else {
            w
        },
        None => 1,
    }
}

/// `std::str::from_utf8`: the text that `bytes` encode, where they are
/// well-formed UTF-8, and `None` where they are not.
#[verifier::external_body]
fn utf8_text(bytes: &[u8]) -> (text: Option<String>)
    ensures
        text is Some <==> vstd::utf8::valid_utf8(bytes@),
        text matches Some(s) ==> s@ == vstd::utf8::decode_utf8(bytes@),
{
    match std::str::from_utf8(bytes) {
        Ok(s) => Some(s.to_string()),
        Err(_) => None,
    }
}

/// The parameter `i` of a control sequence, `default` where it is missing.
pub open spec fn param_or(params: Seq<u16>, i: int, default: int) -> int {
    if 0 <= i < params.len() {
        params[i] as int
    } else {
        default
    }
}

/// The parameter `i` read as a count: a missing parameter and 0 stand for 1.
pub open spec fn count_param(params: Seq<u16>, i: int) -> int {
    max_int(param_or(params, i, 1), 1)
}

/// The mathematical model of a [`VtePerformer`].
pub struct PerformerModel {
    pub grid: GridModel,
    /// The cursor position that `ESC 7` or `CSI s` saved, `(row, col)`.
    pub saved_cursor: Option<(int, int)>,
    pub origin_mode: bool,
    pub auto_wrap: bool,
    /// The character printed last, with the columns it took.
    pub last_printed: Option<(char, int)>,
}

impl PerformerModel {
    /// The invariant of the interpreter: that of its grid.
    pub open spec fn wf(self) -> bool {
        self.grid.wf()
    }

    /// The state of a new interpreter on `grid`.
    pub open spec fn fresh(grid: GridModel) -> PerformerModel {
        PerformerModel {
            grid,
            saved_cursor: None,
            origin_mode: false,
            auto_wrap: true,
            last_printed: None,
        }
    }

    /// The state with `grid` as its grid.
    pub open spec fn with_grid(self, grid: GridModel) -> PerformerModel {
        PerformerModel { grid, ..self }
    }

    /// The screen after the character `c`, `width` columns wide, went to
    /// the cursor, the generation apart: a pending wrap is carried out
    /// first, as carriage return and line feed; the character is written
    /// with the current attributes; the cell to the right of a character of
    /// width 2 is blanked; the cursor moves on by `width`, or sets the wrap
    /// latch at the end of the row.
    pub open spec fn printed_grid(self, c: char, width: int) -> GridModel {
        let wrapped = if self.grid.pending_wrap && self.auto_wrap {
            GridModel { cursor_col: 0, ..self.grid.newline() }
        } else {
            self.grid
        };
        let written = wrapped.set_cell(wrapped.cursor_col, wrapped.cursor_row, c);
        let padded = if width == 2 && written.cursor_col + 1 < written.cols {
            GridModel {
                cells: filled(
                    written.cells,
                    written.cursor_row,
                    written.cursor_col + 1,
                    written.cursor_col + 2,
                    Cell::blank(),
                ),
                ..written
            }
        } else {
            written
        };
        padded.advance_cursor_by_width(width)
    }

    /// Prints `c`, `width` columns wide: one visible mutation.
    pub open spec fn print(self, c: char, width: int) -> PerformerModel {
        PerformerModel {
            grid: self.printed_grid(c, width).stamped(self.grid.generation),
            last_printed: Some((c, width)),
            ..self
        }
    }

    /// Executes a C0 control: backspace, tab, line feed (also for vertical
    /// tab and form feed) and carriage return; every other byte is ignored.
    pub open spec fn execute(self, byte: u8) -> PerformerModel {
        if byte == 0x08 {
            self.with_grid(self.grid.backspace())
        } else if byte == 0x09 {
            self.with_grid(self.grid.tab())
        } else if byte == 0x0a || byte == 0x0b || byte == 0x0c {
            self.with_grid(self.grid.newline())
        } else if byte == 0x0d {
            self.with_grid(self.grid.carriage_return())
        } else {
            self
        }
    }

    /// The state after the character printed last was printed `n` more
    /// times, each time as [`PerformerModel::print`] does it.
    pub open spec fn repeated(self, n: int) -> PerformerModel
        decreases n,
    {
        if n <= 0 {
            self
        } else {
            match self.last_printed {
                Some((c, width)) => self.repeated(n - 1).print(c, width),
                None => self,
            }
        }
    }

    /// Sets (`on`) or resets one DEC private mode: 7 is auto-wrap, 25 the
    /// visibility of the cursor, 2004 bracketed paste, 1049 the alternate
    /// screen. Entering the alternate screen saves the cursor and leaves a
    /// blank screen with the cursor at home; leaving it blanks the screen
    /// and puts the cursor back where it was saved. The generation of a
    /// blanked screen is one after `before`.
    pub open spec fn private_mode(self, mode: u16, on: bool, before: u64) -> PerformerModel {
        if mode == 7 {
            PerformerModel { auto_wrap: on, ..self }
        } else if mode == 25 {
            self.with_grid(GridModel { cursor_visible: on, ..self.grid })
        } else if mode == 2004 {
            self.with_grid(GridModel { bracketed_paste: on, ..self.grid })
        } else if mode == 1049 {
            if on {
                PerformerModel {
                    saved_cursor: Some((self.grid.cursor_row, self.grid.cursor_col)),
                    grid: self.grid.wiped(0, 0).stamped(before),
                    ..self
                }
            } else {
                match self.saved_cursor {
                    Some((row, col)) => self.with_grid(self.grid.wiped(row, col).stamped(before)),
                    None => self.with_grid(self.grid.wiped(0, 0).stamped(before)),
                }
            }
        } else {
            self
        }
    }

    /// The modes `params[..upto]` set or reset one after the other.
    pub open spec fn private_modes(self, params: Seq<u16>, upto: int, on: bool, before: u64) -> PerformerModel
        decreases upto,
    {
        if upto <= 0 {
            self
        } else {
            self.private_modes(params, upto - 1, on, before).private_mode(
                params[upto - 1],
                on,
                before,
            )
        }
    }

    /// The cursor back at the position that was saved, if one was.
    pub open spec fn restore_cursor(self) -> PerformerModel {
        match self.saved_cursor {
            Some((row, col)) => self.with_grid(self.grid.moved_to(row, col)),
            None => self,
        }
    }

    /// The state with the position of the cursor saved.
    pub open spec fn save_cursor(self) -> PerformerModel {
        PerformerModel {
            saved_cursor: Some((self.grid.cursor_row, self.grid.cursor_col)),
            ..self
        }
    }

    /// A control sequence without intermediate bytes, with the final
    /// character `action`. Unknown sequences change nothing.
    pub open spec fn csi_plain(self, params: Seq<u16>, action: char) -> PerformerModel {
        let g = self.grid;
        let n = count_param(params, 0);
        if action == 'A' {
            self.with_grid(g.moved_to(g.cursor_row - n, g.cursor_col))
        } else if action == 'B' || action == 'e' {
            self.with_grid(g.moved_to(g.cursor_row + n, g.cursor_col))
        } else if action == 'C' || action == 'a' {
            self.with_grid(g.moved_to(g.cursor_row, g.cursor_col + n))
        } else if action == 'D' {
            self.with_grid(g.moved_to(g.cursor_row, g.cursor_col - n))
        } else if action == 'E' {
            self.with_grid(g.moved_to(g.cursor_row + n, 0))
        } else if action == 'F' {
            self.with_grid(g.moved_to(g.cursor_row - n, 0))
        } else if action == 'G' || action == '`' {
            self.with_grid(g.moved_to(g.cursor_row, n - 1))
        } else if action == 'H' || action == 'f' {
            self.with_grid(g.moved_to(n - 1, count_param(params, 1) - 1))
        } else if action == 'J' {
            self.with_grid(g.erase_display(param_or(params, 0, 0)))
        } else if action == 'K' {
            self.with_grid(g.erase_line(param_or(params, 0, 0)))
        } else if action == 'L' {
            self.with_grid(g.insert_lines(n))
        } else if action == 'M' {
            self.with_grid(g.delete_lines(n))
        } else if action == 'P' {
            self.with_grid(g.delete_chars(n))
        } else if action == 'X' {
            self.with_grid(g.erase_chars(n))
        } else if action == '@' {
            self.with_grid(g.insert_chars(n))
        } else if action == 'd' {
            self.with_grid(g.moved_to(n - 1, g.cursor_col))
        } else if action == 'b' {
            if self.last_printed is Some {
                self.with_grid(self.repeated(n).grid.stamped(g.generation))
            } else {
                self
            }
        } else if action == 'S' {
            self.with_grid(g.scroll_up_region(n))
        } else if action == 'T' {
            self.with_grid(g.scroll_down_region(n))
        } else if action == 'r' {
            self.with_grid(
                g.set_scroll_region(param_or(params, 0, 1), param_or(params, 1, 0), self.origin_mode),
            )
        } else if action == 'm' {
            self.with_grid(GridModel { current_attrs: sgr(g.current_attrs, params), ..g })
        } else if action == 's' {
            self.save_cursor()
        } else if action == 'u' {
            self.restore_cursor()
        } else {
            self
        }
    }

    /// A control sequence: the sequences without intermediate bytes of
    /// [`PerformerModel::csi_plain`], and `CSI ? … h` and `CSI ? … l`, which
    /// set and reset DEC private modes. A sequence that the parser marks
    /// `ignore`, and any other sequence, changes nothing.
    pub open spec fn csi_dispatch(
        self,
        params: Seq<u16>,
        intermediates: Seq<u8>,
        ignore: bool,
        action: char,
    ) -> PerformerModel {
        if ignore {
            self
        } else if intermediates.len() == 0 {
            self.csi_plain(params, action)
        } else if intermediates[0] == 0x3f && (action == 'h' || action == 'l') {
            self.private_modes(params, params.len() as int, action == 'h', self.grid.generation)
        } else {
            self
        }
    }

    /// An escape sequence without intermediate bytes: `7` saves the cursor,
    /// `8` restores it, `D` is index (line feed), `E` next line (carriage
    /// return and line feed), `M` reverse index. Any other sequence changes
    /// nothing.
    pub open spec fn esc_dispatch(self, intermediates: Seq<u8>, ignore: bool, byte: u8) -> PerformerModel {
        if ignore || intermediates.len() != 0 {
            self
        } else if byte == 0x37 {
            self.save_cursor()
        } else if byte == 0x38 {
            self.restore_cursor()
        } else if byte == 0x44 {
            self.with_grid(self.grid.newline())
        } else if byte == 0x45 {
            self.with_grid(GridModel { cursor_col: 0, ..self.grid }.newline())
        } else if byte == 0x4d {
            self.with_grid(self.grid.reverse_index())
        } else {
            self
        }
    }

    /// An operating system command: `0` and `2` set the title to their
    /// second parameter, if that is well-formed UTF-8. Any other command
    /// changes nothing.
    pub open spec fn osc_dispatch(self, params: Seq<Seq<u8>>) -> PerformerModel {
        if params.len() >= 2 && (params[0] == seq![0x30u8] || params[0] == seq![0x32u8])
            && vstd::utf8::valid_utf8(params[1]) {
            self.with_grid(GridModel { title: vstd::utf8::decode_utf8(params[1]), ..self.grid })
        } else {
            self
        }
    }
}

/// Interprets the actions of the VT state machine on the grid it owns.
#[derive(Debug, Clone)]
pub struct VtePerformer {
    pub grid: TerminalGrid,
    /// The cursor position that `ESC 7` or `CSI s` saved, `(row, col)`.
    pub saved_cursor: Option<(usize, usize)>,
    pub origin_mode: bool,
    pub auto_wrap: bool,
    /// The character printed last, with the columns it took.
    pub last_printed: Option<(char, usize)>,
}

impl View for VtePerformer {
    type V = PerformerModel;

    open spec fn view(&self) -> PerformerModel {
        PerformerModel {
            grid: self.grid@,
            saved_cursor: match self.saved_cursor {
                Some((r, c)) => Some((r as int, c as int)),
                None => None,
            },
            origin_mode: self.origin_mode,
            auto_wrap: self.auto_wrap,
            last_printed: match self.last_printed {
                Some((c, w)) => Some((c, w as int)),
                None => None,
            },
        }
    }
}

/// The parameter `i` of a control sequence, `default` where it is missing.
fn param(params: &[u16], i: usize, default: u16) -> (v: u16)
    ensures
        v == param_or(params@, i as int, default as int),
{
    if i < params.len() {
        params[i]
    } else {
        default
    }
}

/// The parameter `i` read as a count: a missing parameter and 0 stand for 1.
fn count(params: &[u16], i: usize) -> (n: usize)
    ensures
        n == count_param(params@, i as int),
        1 <= n <= u16::MAX,
{
    let v = param(params, i, 1);
    if v == 0 {
        1
    } else {
        v as usize
    }
}

impl VtePerformer {
    /// The invariant of the interpreter: that of its grid.
    pub open spec fn wf(&self) -> bool {
        self@.wf()
    }

    /// A new interpreter on `grid`, with auto-wrap on.
    pub fn new(grid: TerminalGrid) -> (performer: Self)
        ensures
            performer@ == PerformerModel::fresh(grid@),
    {
        VtePerformer {
            grid,
            saved_cursor: None,
            origin_mode: false,
            auto_wrap: true,
            last_printed: None,
        }
    }

    /// Brings the screen to [`PerformerModel::printed_grid`].
    fn put_char(&mut self, c: char, width: usize)
        requires
            old(self).wf(),
        ensures
            final(self)@ == old(self)@.with_grid(old(self)@.printed_grid(c, width as int)),
            final(self).wf(),
    {
        if self.grid.pending_wrap && self.auto_wrap {
            self.grid.newline();
            self.grid.cursor_col = 0;
        }
        let col = self.grid.cursor_col;
        let row = self.grid.cursor_row;
        self.grid.set_cell(col, row, c);
        if width == 2 && col + 1 < self.grid.cols {
            assert(rows_view(self.grid.cells@)[row as int] == self.grid.cells@[row as int]@);
            fill_cells(&mut self.grid.cells, row, col + 1, col + 2, Cell::default());
        }
        self.grid.advance_cursor_by_width(width);
    }

    /// Prints `c` as a character `width` columns wide, see
    /// [`PerformerModel::print`].
    pub fn print_with_width(&mut self, c: char, width: usize)
        requires
            old(self).wf(),
        ensures
            final(self)@ == old(self)@.print(c, width as int),
            final(self).wf(),
    {
        let before = self.grid.generation;
        self.put_char(c, width);
        self.grid.generation = before.wrapping_add(1);
        self.last_printed = Some((c, width));
    }

    /// Prints `c` at the cursor, as wide as the Unicode tables say.
    pub fn print(&mut self, c: char)
        requires
            old(self).wf(),
        ensures
            final(self)@ == old(self)@.print(c, display_width(c)),
            final(self).wf(),
    {
        self.print_with_width(c, columns_of(c));
    }

    /// Executes a C0 control, see [`PerformerModel::execute`].
    pub fn execute(&mut self, byte: u8)
        requires
            old(self).wf(),
        ensures
            final(self)@ == old(self)@.execute(byte),
            final(self).wf(),
    {
        if byte == 0x08 {
            self.grid.backspace();
        } else if byte == 0x09 {
            self.grid.tab();
        } else if byte == 0x0a || byte == 0x0b || byte == 0x0c {
            self.grid.newline();
        } else if byte == 0x0d {
            self.grid.carriage_return();
        }
    }

    /// Prints the character printed last `n` more times, as one visible
    /// mutation.
    fn repeat_last(&mut self, n: usize)
        requires
            old(self).wf(),
            old(self).last_printed is Some,
            n >= 1,
        ensures
            final(self)@ == old(self)@.with_grid(
                old(self)@.repeated(n as int).grid.stamped(old(self)@.grid.generation),
            ),
            final(self).wf(),
    {
        let before = self.grid.generation;
        let (c, width) = self.last_printed.unwrap();
        let mut i: usize = 0;
        while i < n
            invariant
                i <= n,
                self.wf(),
                old(self).last_printed == Some((c, width)),
                self@ == old(self)@.repeated(i as int),
                self@ == old(self)@.with_grid(self@.grid),
            decreases n - i,
        {
            self.print_with_width(c, width);
            i += 1;
        }
        self.grid.generation = before.wrapping_add(1);
    }

    /// Sets or resets one DEC private mode, see
    /// [`PerformerModel::private_mode`].
    fn set_private_mode(&mut self, mode: u16, on: bool, before: u64)
        requires
            old(self).wf(),
        ensures
            final(self)@ == old(self)@.private_mode(mode, on, before),
            final(self).wf(),
    {
        if mode == 7 {
            self.auto_wrap = on;
        } else if mode == 25 {
            self.grid.cursor_visible = on;
        } else if mode == 2004 {
            self.grid.bracketed_paste = on;
        } else if mode == 1049 {
            if on {
                self.saved_cursor = Some((self.grid.cursor_row, self.grid.cursor_col));
                self.grid.wipe(0, 0);
            } else {
                match self.saved_cursor {
                    Some((row, col)) => self.grid.wipe(row, col),
                    None => self.grid.wipe(0, 0),
                }
            }
            self.grid.generation = before.wrapping_add(1);
        }
    }

    /// Carries out a control sequence without intermediate bytes, see
    /// [`PerformerModel::csi_plain`].
    fn csi_plain(&mut self, params: &[u16], action: char)
        requires
            old(self).wf(),
        ensures
            final(self)@ == old(self)@.csi_plain(params@, action),
            final(self).wf(),
    {
        let n = count(params, 0);
        let row = self.grid.cursor_row;
        let col = self.grid.cursor_col;
        if action == 'A' {
            self.grid.move_cursor_to(row.saturating_sub(n), col);
        } else if action == 'B' || action == 'e' {
            self.grid.move_cursor_to(row.saturating_add(n), col);
        } else if action == 'C' || action == 'a' {
            self.grid.move_cursor_to(row, col.saturating_add(n));
        } else if action == 'D' {
            self.grid.move_cursor_to(row, col.saturating_sub(n));
        } else if action == 'E' {
            self.grid.move_cursor_to(row.saturating_add(n), 0);
        } else if action == 'F' {
            self.grid.move_cursor_to(row.saturating_sub(n), 0);
        } else if action == 'G' || action == '`' {
            self.grid.move_cursor_to(row, n - 1);
        } else if action == 'H' || action == 'f' {
            let m = count(params, 1);
            self.grid.move_cursor_to(n - 1, m - 1);
        } else if action == 'J' {
            self.grid.erase_display(param(params, 0, 0));
        } else if action == 'K' {
            self.grid.erase_line(param(params, 0, 0));
        } else if action == 'L' {
            self.grid.insert_lines(n);
        } else if action == 'M' {
            self.grid.delete_lines(n);
        } else if action == 'P' {
            self.grid.delete_chars(n);
        } else if action == 'X' {
            self.grid.erase_chars(n);
        } else if action == '@' {
            self.grid.insert_chars(n);
        } else if action == 'd' {
            self.grid.move_cursor_to(n - 1, col);
        } else if action == 'b' {
            if self.last_printed.is_some() {
                self.repeat_last(n);
            }
        } else if action == 'S' {
            self.grid.scroll_up_region(n);
        } else if action == 'T' {
            self.grid.scroll_down_region(n);
        } else if action == 'r' {
            let top = param(params, 0, 1);
            let bottom = param(params, 1, 0);
            self.grid.set_scroll_region(top as usize, bottom as usize, self.origin_mode);
        } else if action == 'm' {
            apply_sgr(&mut self.grid.current_attrs, params);
        } else if action == 's' {
            self.saved_cursor = Some((row, col));
        } else if action == 'u' {
            self.restore_cursor();
        }
    }

    /// Puts the cursor back at the position that was saved, if one was.
    fn restore_cursor(&mut self)
        requires
            old(self).wf(),
        ensures
            final(self)@ == old(self)@.restore_cursor(),
            final(self).wf(),
    {
        match self.saved_cursor {
            Some((row, col)) => self.grid.move_cursor_to(row, col),
            None => {},
        }
    }

    /// Carries out a control sequence, see
    /// [`PerformerModel::csi_dispatch`]: cursor movement, erasing,
    /// inserting and deleting, scrolling, the scroll region, the rendition
    /// and the DEC private modes. Unknown sequences are dropped.
    pub fn csi_dispatch(&mut self, params: &[u16], intermediates: &[u8], ignore: bool, action: char)
        requires
            old(self).wf(),
        ensures
            final(self)@ == old(self)@.csi_dispatch(params@, intermediates@, ignore, action),
            final(self).wf(),
    {
        if ignore {
            return ;
        }
        if intermediates.len() == 0 {
            self.csi_plain(params, action);
        } else if intermediates[0] == 0x3f && (action == 'h' || action == 'l') {
            let before = self.grid.generation;
            let on = action == 'h';
            let mut i: usize = 0;
            while i < params.len()
                invariant
                    i <= params.len(),
                    self.wf(),
                    self@ == old(self)@.private_modes(params@, i as int, on, before),
                decreases params.len() - i,
            {
                self.set_private_mode(params[i], on, before);
                i += 1;
            }
        }
    }

    /// Carries out an escape sequence, see
    /// [`PerformerModel::esc_dispatch`].
    pub fn esc_dispatch(&mut self, intermediates: &[u8], ignore: bool, byte: u8)
        requires
            old(self).wf(),
        ensures
            final(self)@ == old(self)@.esc_dispatch(intermediates@, ignore, byte),
            final(self).wf(),
    {
        if ignore || intermediates.len() != 0 {
            return ;
        }
        if byte == 0x37 {
            self.saved_cursor = Some((self.grid.cursor_row, self.grid.cursor_col));
        } else if byte == 0x38 {
            self.restore_cursor();
        } else if byte == 0x44 {
            self.grid.newline();
        } else if byte == 0x45 {
            self.grid.cursor_col = 0;
            self.grid.newline();
        } else if byte == 0x4d {
            self.grid.reverse_index();
        }
    }

    /// Carries out an operating system command, see
    /// [`PerformerModel::osc_dispatch`].
    pub fn osc_dispatch(&mut self, params: &Vec<Vec<u8>>, bell_terminated: bool)
        requires
            old(self).wf(),
        ensures
            final(self)@ == old(self)@.osc_dispatch(rows_of(params@)),
            final(self).wf(),
    {
        if params.len() < 2 {
            return ;
        }
        assert(rows_of(params@)[0] == params@[0]@);
        assert(rows_of(params@)[1] == params@[1]@);
        let code = &params[0];
        if code.len() == 1 && (code[0] == 0x30 || code[0] == 0x32) {
            assert(code@ =~= seq![code@[0]]);
            match utf8_text(params[1].as_slice()) {
                Some(title) => {
                    self.grid.title = title;
                },
                None => {},
            }
        } else {
            assert(seq![0x30u8].len() == 1 && seq![0x30u8][0] == 0x30);
            assert(seq![0x32u8].len() == 1 && seq![0x32u8][0] == 0x32);
        }
    }
}

/// What a list of byte strings holds.
pub open spec fn rows_of(params: Seq<Vec<u8>>) -> Seq<Seq<u8>> {
    Seq::new(params.len(), |i: int| params[i]@)
}

/// One action that the VT state machine dispatched.
#[derive(Debug, Clone, PartialEq, Eq)]
pub enum VtEvent {
    /// A printable character.
    Print(char),
    /// A C0 or C1 control.
    Execute(u8),
    /// A control sequence; `params` holds the first value of each parameter.
    Csi { params: Vec<u16>, intermediates: Vec<u8>, ignore: bool, action: char },
    /// An escape sequence.
    Esc { intermediates: Vec<u8>, ignore: bool, byte: u8 },
    /// An operating system command.
    Osc { params: Vec<Vec<u8>>, bell_terminated: bool },
}

/// The mathematical model of a [`VtEvent`].
pub enum EventModel {
    Print(char),
    Execute(u8),
    Csi { params: Seq<u16>, intermediates: Seq<u8>, ignore: bool, action: char },
    Esc { intermediates: Seq<u8>, ignore: bool, byte: u8 },
    Osc { params: Seq<Seq<u8>>, bell_terminated: bool },
}

impl View for VtEvent {
    type V = EventModel;

    open spec fn view(&self) -> EventModel {
        match *self {
            VtEvent::Print(c) => EventModel::Print(c),
            VtEvent::Execute(byte) => EventModel::Execute(byte),
            VtEvent::Csi { params, intermediates, ignore, action } => EventModel::Csi {
                params: params@,
                intermediates: intermediates@,
                ignore,
                action,
            },
            VtEvent::Esc { intermediates, ignore, byte } => EventModel::Esc {
                intermediates: intermediates@,
                ignore,
                byte,
            },
            VtEvent::Osc { params, bell_terminated } => EventModel::Osc {
                params: rows_of(params@),
                bell_terminated,
            },
        }
    }
}

/// What a list of events holds.
pub open spec fn events_view(events: Seq<VtEvent>) -> Seq<EventModel> {
    Seq::new(events.len(), |i: int| events[i]@)
}

impl PerformerModel {
    /// The state after one action.
    pub open spec fn apply(self, event: EventModel) -> PerformerModel {
        match event {
            EventModel::Print(c) => self.print(c, display_width(c)),
            EventModel::Execute(byte) => self.execute(byte),
            EventModel::Csi { params, intermediates, ignore, action } => self.csi_dispatch(
                params,
                intermediates,
                ignore,
                action,
            ),
            EventModel::Esc { intermediates, ignore, byte } => self.esc_dispatch(
                intermediates,
                ignore,
                byte,
            ),
            EventModel::Osc { params, bell_terminated } => self.osc_dispatch(params),
        }
    }

    /// The state after all of `events`, in order.
    pub open spec fn run(self, events: Seq<EventModel>) -> PerformerModel
        decreases events.len(),
    {
        if events.len() == 0 {
            self
        } else {
            self.run(events.drop_last()).apply(events.last())
        }
    }
}

impl VtePerformer {
    /// Carries out one action.
    pub fn apply(&mut self, event: &VtEvent)
        requires
            old(self).wf(),
        ensures
            final(self)@ == old(self)@.apply(event@),
            final(self).wf(),
    {
        match event {
            VtEvent::Print(c) => self.print(*c),
            VtEvent::Execute(byte) => self.execute(*byte),
            VtEvent::Csi { params, intermediates, ignore, action } => self.csi_dispatch(
                params.as_slice(),
                intermediates.as_slice(),
                *ignore,
                *action,
            ),
            VtEvent::Esc { intermediates, ignore, byte } => self.esc_dispatch(
                intermediates.as_slice(),
                *ignore,
                *byte,
            ),
            VtEvent::Osc { params, bell_terminated } => self.osc_dispatch(params, *bell_terminated),
        }
    }

    /// Carries out `events`, in order.
    pub fn apply_all(&mut self, events: &Vec<VtEvent>)
        requires
            old(self).wf(),
        ensures
            final(self)@ == old(self)@.run(events_view(events@)),
            final(self).wf(),
    {
        let ghost all = events_view(events@);
        let mut i: usize = 0;
        assert(all.subrange(0, 0) =~= Seq::<EventModel>::empty());
        while i < events.len()
            invariant
                i <= events.len(),
                all == events_view(events@),
                self.wf(),
                self@ == old(self)@.run(all.subrange(0, i as int)),
            decreases events.len() - i,
        {
            self.apply(&events[i]);
            proof {
                let longer = all.subrange(0, i + 1);
                assert(longer.drop_last() =~= all.subrange(0, i as int));
                assert(longer.last() == events@[i as int]@);
            }
            i += 1;
        }
        assert(all.subrange(0, events.len() as int) =~= all);
    }
}

/// Collects the actions that the VT state machine dispatches.
pub struct EventRecorder {
    pub events: Vec<VtEvent>,
}

impl EventRecorder {
    /// A recorder that holds nothing yet.
    pub fn new() -> (recorder: Self)
        ensures
            recorder.events@.len() == 0,
    {
        EventRecorder { events: Vec::new() }
    }
}

/// `vte::Params::iter`: the first value of each parameter of a control
/// sequence, in order; the values behind a colon are left out. Nothing is
/// claimed of the result.
#[verifier::external_body]
fn leading_values(params: &vte::Params) -> (values: Vec<u16>) {
    params.iter().map(|values| values[0]).collect()
}

impl EventRecorder {
    /// The recorder holds what it held, and `event` behind it.
    pub open spec fn recorded(&self, before: &EventRecorder, event: EventModel) -> bool {
        &&& self.events@.len() == before.events@.len() + 1
        &&& self.events@.drop_last() == before.events@
        &&& self.events@.last()@ == event
    }
}

impl vte::Perform for EventRecorder {
    fn print(&mut self, c: char)
        ensures
            final(self).recorded(old(self), EventModel::Print(c)),
    {
        self.events.push(VtEvent::Print(c));
        assert(self.events@.drop_last() =~= old(self).events@);
    }

    fn execute(&mut self, byte: u8)
        ensures
            final(self).recorded(old(self), EventModel::Execute(byte)),
    {
        self.events.push(VtEvent::Execute(byte));
        assert(self.events@.drop_last() =~= old(self).events@);
    }

    fn csi_dispatch(&mut self, params: &vte::Params, intermediates: &[u8], ignore: bool, action: char)
        ensures
            exists|values: Seq<u16>|
                final(self).recorded(
                    old(self),
                    EventModel::Csi { params: values, intermediates: intermediates@, ignore, action },
                ),
    {
        let values = leading_values(params);
        let ghost seen = values@;
        self.events.push(
            VtEvent::Csi {
                params: values,
                intermediates: vstd::slice::slice_to_vec(intermediates),
                ignore,
                action,
            },
        );
        assert(self.events@.drop_last() =~= old(self).events@);
        assert(self.recorded(
            old(self),
            EventModel::Csi { params: seen, intermediates: intermediates@, ignore, action },
        ));
    }

    fn esc_dispatch(&mut self, intermediates: &[u8], ignore: bool, byte: u8)
        ensures
            final(self).recorded(
                old(self),
                EventModel::Esc { intermediates: intermediates@, ignore, byte },
            ),
    {
        self.events.push(
            VtEvent::Esc { intermediates: vstd::slice::slice_to_vec(intermediates), ignore, byte },
        );
        assert(self.events@.drop_last() =~= old(self).events@);
    }

    fn osc_dispatch(&mut self, params: &[&[u8]], bell_terminated: bool)
        ensures
            final(self).recorded(
                old(self),
                EventModel::Osc {
                    params: Seq::new(params@.len(), |i: int| params@[i]@),
                    bell_terminated,
                },
            ),
    {
        let mut owned: Vec<Vec<u8>> = Vec::new();
        let mut i: usize = 0;
        while i < params.len()
            invariant
                i <= params@.len(),
                owned@.len() == i,
                forall|j: int| 0 <= j < i ==> (#[trigger] owned@[j])@ == params@[j]@,
            decreases params@.len() - i,
        {
            owned.push(vstd::slice::slice_to_vec(params[i]));
            i += 1;
        }
        assert(rows_of(owned@) =~~= Seq::new(params@.len(), |i: int| params@[i]@));
        self.events.push(VtEvent::Osc { params: owned, bell_terminated });
        assert(self.events@.drop_last() =~= old(self).events@);
    }
}

/// Whether two grids show the same: the same cells in the same rectangle
/// and the same scrollback.
pub open spec fn same_content(a: GridModel, b: GridModel) -> bool {
    &&& a.cols == b.cols
    &&& a.rows == b.rows
    &&& a.cells == b.cells
    &&& a.scrollback == b.scrollback
}

/// Whether `after` is `before` with one visible mutation at most: the
/// generation is that of `before` and the content is the same, or the
/// generation is one further.
pub open spec fn one_mutation(before: GridModel, after: GridModel) -> bool {
    ||| after.generation == before.generation && same_content(before, after)
    ||| after.generation == bump(before.generation)
}

/// Setting and resetting private modes counts as one visible mutation at
/// most, however many modes a sequence names.
pub proof fn lemma_private_modes_generation(m: PerformerModel, params: Seq<u16>, upto: int, on: bool)
    requires
        m.wf(),
        0 <= upto <= params.len(),
    ensures
        one_mutation(m.grid, m.private_modes(params, upto, on, m.grid.generation).grid),
        m.private_modes(params, upto, on, m.grid.generation).wf(),
    decreases upto,
{
    if upto > 0 {
        lemma_private_modes_generation(m, params, upto - 1, on);
    }
}

/// Generation monotonicity. One action of the parser advances the
/// generation by one or leaves it as it is, and it leaves it only if the
/// cells and the scrollback are what they were. So the generation never
/// falls short of a change of the screen, and, until it wraps round at
/// `u64::MAX`, it never decreases.
pub proof fn lemma_generation_step(m: PerformerModel, event: EventModel)
    requires
        m.wf(),
    ensures
        one_mutation(m.grid, m.apply(event).grid),
        m.grid.generation < u64::MAX ==> m.apply(event).grid.generation >= m.grid.generation,
        !same_content(m.grid, m.apply(event).grid) && m.grid.generation < u64::MAX ==> m.apply(
            event,
        ).grid.generation > m.grid.generation,
{
    match event {
        EventModel::Print(c) => {},
        EventModel::Execute(byte) => {},
        EventModel::Csi { params, intermediates, ignore, action } => {
            if !ignore && intermediates.len() > 0 {
                lemma_private_modes_generation(m, params, params.len() as int, action == 'h');
            }
        },
        EventModel::Esc { intermediates, ignore, byte } => {},
        EventModel::Osc { params, bell_terminated } => {},
    }
}

impl PerformerModel {
    /// The state after the characters `text[..upto]` were printed, each one
    /// column wide.
    pub open spec fn typed(self, text: Seq<char>, upto: int) -> PerformerModel
        decreases upto,
    {
        if upto <= 0 {
            self
        } else {
            self.typed(text, upto - 1).print(text[upto - 1], 1)
        }
    }
}

/// What printing one character of width 1 does where no wrap is pending:
/// the character stands at the cursor, every other cell is as it was, and
/// the cursor has moved on by one, or set the wrap latch in the last
/// column.
pub proof fn lemma_print_narrow(m: PerformerModel, c: char)
    requires
        m.wf(),
        !m.grid.pending_wrap,
    ensures
        ({
            let after = m.print(c, 1);
            let (row, col) = (m.grid.cursor_row, m.grid.cursor_col);
            &&& after.wf()
            &&& after.auto_wrap == m.auto_wrap
            &&& after.grid.cols == m.grid.cols
            &&& after.grid.rows == m.grid.rows
            &&& after.grid.scrollback == m.grid.scrollback
            &&& after.grid.cursor_row == row
            &&& after.grid.cells[row][col].ch == c
            &&& forall|i: int|
                0 <= i < m.grid.cols && i != col ==> #[trigger] after.grid.cells[row][i]
                    == m.grid.cells[row][i]
            &&& (col + 1 < m.grid.cols ==> after.grid.cursor_col == col + 1
                && !after.grid.pending_wrap)
            &&& (col + 1 == m.grid.cols ==> after.grid.cursor_col == col
                && after.grid.pending_wrap)
        }),
{
    let g = m.grid;
    let cell = Cell { ch: c, attrs: g.current_attrs };
    let f = filled(g.cells, g.cursor_row, g.cursor_col, g.cursor_col + 1, cell);
    assert(g.cells[g.cursor_row].len() == g.cols);
    assert(f[g.cursor_row][g.cursor_col] == cell);
    assert forall|r: int| 0 <= r < g.rows implies (#[trigger] f[r]).len() == g.cols by {
        assert(g.cells[r].len() == g.cols);
    }
}

/// What the row of the cursor holds after `upto` characters of a text
/// that fits between the cursor and the end of the row were typed: those
/// characters from the column of the cursor on, the cursor behind them,
/// and nothing scrolled.
pub proof fn lemma_typed_row(start: PerformerModel, text: Seq<char>, upto: int)
    requires
        start.wf(),
        !start.grid.pending_wrap,
        start.grid.cursor_col + text.len() <= start.grid.cols,
        0 <= upto <= text.len(),
    ensures
        ({
            let m = start.typed(text, upto);
            let (row, col) = (start.grid.cursor_row, start.grid.cursor_col);
            &&& m.wf()
            &&& m.grid.cols == start.grid.cols
            &&& m.grid.rows == start.grid.rows
            &&& m.grid.scrollback == start.grid.scrollback
            &&& m.grid.cursor_row == row
            &&& (col + upto < m.grid.cols ==> m.grid.cursor_col == col + upto
                && !m.grid.pending_wrap)
            &&& (col + upto == m.grid.cols ==> m.grid.cursor_col == m.grid.cols - 1
                && m.grid.pending_wrap)
            &&& forall|i: int| 0 <= i < upto ==> (#[trigger] m.grid.cells[row][col + i]).ch == text[i]
        }),
    decreases upto,
{
    if upto > 0 {
        lemma_typed_row(start, text, upto - 1);
        let before = start.typed(text, upto - 1);
        let after = before.print(text[upto - 1], 1);
        let (row, col) = (start.grid.cursor_row, start.grid.cursor_col);
        lemma_print_narrow(before, text[upto - 1]);
        assert forall|i: int| 0 <= i < upto implies (#[trigger] after.grid.cells[row][col + i]).ch
            == text[i] by {
            if i < upto - 1 {
                assert(before.grid.cells[row][col + i].ch == text[i]);
            }
        }
    }
}

/// Selection round trip. A text without NUL, typed one column a character
/// into a well-formed grid in which no wrap is pending and the text fits
/// between the cursor and the end of the row, and then selected from its
/// first to its last cell, is extracted as it was typed, but for the
/// white space at its end. In a grid with an empty scrollback and the
/// cursor at home the selection goes from `(0, 0)` to `(0, len - 1)`.
pub proof fn lemma_selection_round_trip(start: PerformerModel, text: Seq<char>)
    requires
        start.wf(),
        !start.grid.pending_wrap,
        text.len() >= 1,
        start.grid.cursor_col + text.len() <= start.grid.cols,
        forall|i: int| 0 <= i < text.len() ==> text[i] != '\0',
    ensures
        ({
            let abs_row = start.grid.scrollback.len() + start.grid.cursor_row;
            let col = start.grid.cursor_col;
            start.typed(text, text.len() as int).grid.selection_text(
                (abs_row, col),
                (abs_row, col + text.len() - 1),
            ) == trimmed_end(text)
        }),
{
    let len = text.len() as int;
    lemma_typed_row(start, text, len);
    let grid = start.typed(text, len).grid;
    let abs_row = start.grid.scrollback.len() + start.grid.cursor_row;
    let col = start.grid.cursor_col;
    let first = (abs_row, col);
    let last = (abs_row, col + len - 1);
    let row = grid.abs_row(abs_row);
    assert(row == grid.cells[start.grid.cursor_row]);
    assert(row.len() == grid.cols);
    assert(cell_chars(row, col, col + len) =~= text) by {
        assert forall|i: int| 0 <= i < len implies cell_chars(row, col, col + len)[i]
            == text[i] by {
            assert(grid.cells[start.grid.cursor_row][col + i].ch == text[i]);
        }
    }
    assert(grid.line_text(abs_row, first, last) == trimmed_end(text));
    assert(grid.selection_upto(first, last, abs_row + 1) == grid.line_text(abs_row, first, last));
}

} // verus!
