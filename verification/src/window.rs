//! What a window decides between its events and its panes: which pane is
//! under the pointer, how a selection grows with the mouse, what a paste
//! sends, where the cursor is drawn, and how large the contents are.

use vstd::prelude::*;
use crate::pane::layout::Rect;
use crate::pane::PaneTree;
use crate::renderer::Selection;
use crate::terminal::grid::{find_drawn_cursor, GridModel, TerminalGrid};

verus! {

/// Whether the point (`px`, `py`) lies in `rect`: on its left or upper
/// edge or inside, but not on its right or lower edge.
pub open spec fn contains_point(rect: Rect, px: u32, py: u32) -> bool {
    &&& rect.x <= px < rect.x + rect.width
    &&& rect.y <= py < rect.y + rect.height
}

/// The index of the first of `rects[from..]` that holds the point.
pub open spec fn first_hit(rects: Seq<(u64, Rect)>, px: u32, py: u32, from: int) -> Option<int>
    decreases rects.len() - from,
{
    if from < 0 || from >= rects.len() {
        None
    } else if contains_point(rects[from].1, px, py) {
        Some(from)
    } else {
        first_hit(rects, px, py, from + 1)
    }
}

/// The pane under the point (`px`, `py`): the first of `rects` that holds
/// the point.
pub fn pane_at(rects: &[(u64, Rect)], px: u32, py: u32) -> (pane: Option<u64>)
    ensures
        pane == match first_hit(rects@, px, py, 0) {
            Some(i) => Some(rects@[i].0),
            None => None,
        },
{
    let mut i: usize = 0;
    while i < rects.len()
        invariant
            i <= rects@.len(),
            first_hit(rects@, px, py, 0) == first_hit(rects@, px, py, i as int),
        decreases rects@.len() - i,
    {
        let rect = rects[i].1;
        if rect.x <= px && (px as u64) < rect.x as u64 + rect.width as u64 && rect.y <= py && (
        py as u64) < rect.y as u64 + rect.height as u64 {
            return Some(rects[i].0);
        }
        i += 1;
    }
    None
}

impl PaneTree {
    /// The focus after a click at (`px`, `py`): on the pane under the
    /// point, if that is a pane of the tree, and where it was otherwise.
    pub open spec fn focus_after_click(&self, rects: Seq<(u64, Rect)>, px: u32, py: u32) -> Option<
        u64,
    > {
        match first_hit(rects, px, py, 0) {
            Some(i) => if self.ids().contains(rects[i].0) {
                Some(rects[i].0)
            } else {
                self.focused_id
            },
            None => self.focused_id,
        }
    }

    /// Gives the focus to the pane under the point (`px`, `py`), see
    /// [`PaneTree::focus_after_click`]. `layout_rects` places the panes.
    pub fn focus_at(&mut self, layout_rects: &[(u64, Rect)], px: u32, py: u32)
        requires
            old(self).wf(),
        ensures
            final(self).wf(),
            final(self).panes == old(self).panes,
            final(self).layout == old(self).layout,
            final(self).next_id == old(self).next_id,
            final(self).focused_id == old(self).focus_after_click(layout_rects@, px, py),
    {
        match pane_at(layout_rects, px, py) {
            Some(id) => {
                let known = self.find_pane(id);
                proof {
                    if known is Some {
                        assert(self.ids()[known->0 as int] == id);
                    }
                }
                if known.is_some() {
                    self.focused_id = Some(id);
                }
            },
            None => {},
        }
    }
}

/// The selection of a window as the mouse makes it.
#[derive(Debug, Clone, Copy)]
pub struct MouseState {
    /// The selection, if there is one, in absolute rows.
    pub selection: Option<Selection>,
    /// The pane that the selection belongs to.
    pub selection_pane: u64,
    /// Whether the primary button is held down.
    pub button_down: bool,
}

impl MouseState {
    /// No selection, no button down.
    pub fn new() -> (state: Self)
        ensures
            state.selection is None,
            state.selection_pane == 0,
            !state.button_down,
    {
        MouseState { selection: None, selection_pane: 0, button_down: false }
    }

    /// The primary button went down in the pane `pane`, over the cell
    /// `cell` if the pointer is over one: a new selection begins there, and
    /// the old one is gone. Without a pane the selection stays as it is.
    pub fn press(&mut self, pane: Option<u64>, cell: Option<(usize, usize)>)
        ensures
            final(self).button_down,
            final(self).selection_pane == match (pane, cell) {
                (Some(id), Some(_)) => id,
                _ => old(self).selection_pane,
            },
            match pane {
                Some(id) => match cell {
                    Some(at) => final(self).selection matches Some(sel) && sel.anchor == at
                        && sel.head == at,
                    None => final(self).selection is None,
                },
                None => final(self).selection == old(self).selection,
            },
    {
        self.button_down = true;
        match pane {
            Some(id) => {
                match cell {
                    Some(at) => {
                        self.selection = Some(Selection { anchor: at, head: at });
                        self.selection_pane = id;
                    },
                    None => {
                        self.selection = None;
                    },
                }
            },
            None => {},
        }
    }

    /// The pointer moved to the cell `cell`, if it is over one: while the
    /// button is down the head of the selection follows it.
    pub fn drag(&mut self, cell: Option<(usize, usize)>)
        ensures
            final(self).button_down == old(self).button_down,
            final(self).selection_pane == old(self).selection_pane,
            final(self).selection == match (old(self).selection, cell) {
                (Some(sel), Some(at)) => if old(self).button_down {
                    Some(Selection { anchor: sel.anchor, head: at })
                } else {
                    Some(sel)
                },
                _ => old(self).selection,
            },
    {
        if self.button_down {
            match cell {
                Some(at) => {
                    match self.selection {
                        Some(sel) => {
                            self.selection = Some(Selection { anchor: sel.anchor, head: at });
                        },
                        None => {},
                    }
                },
                None => {},
            }
        }
    }

    /// The primary button went up. A selection that never left its first
    /// cell was a click: it is dropped, and the result is `true`.
    pub fn release(&mut self) -> (click: bool)
        ensures
            !final(self).button_down,
            final(self).selection_pane == old(self).selection_pane,
            click == (old(self).selection matches Some(sel) && sel.spec_is_empty()),
            final(self).selection == if click {
                None
            } else {
                old(self).selection
            },
    {
        self.button_down = false;
        match self.selection {
            Some(sel) => {
                if sel.is_empty() {
                    self.selection = None;
                    true
                } else {
                    false
                }
            },
            None => false,
        }
    }

    /// Drops the selection, as typing into the pane does.
    pub fn clear_selection(&mut self)
        ensures
            final(self).selection is None,
            final(self).selection_pane == old(self).selection_pane,
            final(self).button_down == old(self).button_down,
    {
        self.selection = None;
    }
}

/// The start of a bracketed paste, `CSI 200 ~`.
pub open spec fn paste_start() -> Seq<u8> {
    seq![0x1bu8, 0x5bu8, 0x32u8, 0x30u8, 0x30u8, 0x7eu8]
}

/// The end of a bracketed paste, `CSI 201 ~`.
pub open spec fn paste_end() -> Seq<u8> {
    seq![0x1bu8, 0x5bu8, 0x32u8, 0x30u8, 0x31u8, 0x7eu8]
}

/// The bytes that pasting `text` sends to the shell: the text in UTF-8,
/// between `CSI 200 ~` and `CSI 201 ~` where the shell asked for bracketed
/// paste.
pub fn paste_bytes(text: &str, bracketed: bool) -> (bytes: Vec<u8>)
    ensures
        bytes@ == if bracketed {
            paste_start() + vstd::utf8::encode_utf8(text@) + paste_end()
        } else {
            vstd::utf8::encode_utf8(text@)
        },
{
    let body = text.as_bytes_vec();
    if !bracketed {
        return body;
    }
    let mut bytes: Vec<u8> = vec![0x1bu8, 0x5bu8, 0x32u8, 0x30u8, 0x30u8, 0x7eu8];
    assert(bytes@ =~= paste_start());
    let mut i: usize = 0;
    while i < body.len()
        invariant
            i <= body@.len(),
            bytes@ == paste_start() + body@.subrange(0, i as int),
        decreases body@.len() - i,
    {
        bytes.push(body[i]);
        assert(bytes@ =~= paste_start() + body@.subrange(0, i + 1));
        i += 1;
    }
    assert(body@.subrange(0, body@.len() as int) =~= body@);
    let ghost head = bytes@;
    bytes.push(0x1b);
    bytes.push(0x5b);
    bytes.push(0x32);
    bytes.push(0x30);
    bytes.push(0x31);
    bytes.push(0x7e);
    assert(bytes@ =~= head + paste_end());
    bytes
}

/// Where the animated cursor of a grid is drawn, as `(col, row)`: at the
/// cursor that the application drew itself, if it hid the terminal's and
/// drew one; else at the terminal's cursor, if that is visible; else
/// nowhere.
pub open spec fn shown_cursor(grid: GridModel) -> Option<(int, int)> {
    match grid.reverse_cursor {
        Some((row, col)) => Some((col, row)),
        None => if grid.cursor_visible {
            Some((grid.cursor_col, grid.cursor_row))
        } else {
            None
        },
    }
}

/// Looks for the cursor to draw: while the terminal's cursor is hidden the
/// grid is searched for a cursor that the application drew itself, and
/// while it is visible none is noted. The result is the position of the
/// animated cursor, see [`shown_cursor`].
pub fn track_cursor(grid: &mut TerminalGrid) -> (cursor: Option<(usize, usize)>)
    requires
        old(grid).wf(),
    ensures
        final(grid).wf(),
        final(grid)@ == old(grid)@.with_reverse_cursor(final(grid)@.reverse_cursor),
        old(grid).cursor_visible ==> final(grid).reverse_cursor is None,
        !old(grid).cursor_visible ==> crate::terminal::grid::is_drawn_cursor(
            old(grid)@.cells,
            final(grid)@.reverse_cursor,
        ),
        match cursor {
            Some((col, row)) => shown_cursor(final(grid)@) == Some((col as int, row as int)),
            None => shown_cursor(final(grid)@) is None,
        },
{
    if grid.cursor_visible {
        grid.reverse_cursor = None;
    } else {
        grid.reverse_cursor = find_drawn_cursor(&grid.cells);
    }
    match grid.reverse_cursor {
        Some((row, col)) => Some((col, row)),
        None => {
            if grid.cursor_visible {
                Some((grid.cursor_col, grid.cursor_row))
            } else {
                None
            }
        },
    }
}

/// The rectangle that the panes fill in a window of `width` × `height`
/// pixels with `padding` pixels around them: at least one pixel each way.
pub open spec fn padded(width: u32, height: u32, padding: u32) -> Rect {
    Rect {
        x: padding,
        y: padding,
        width: if width - 2 * padding >= 1 {
            (width - 2 * padding) as u32
        } else {
            1
        },
        height: if height - 2 * padding >= 1 {
            (height - 2 * padding) as u32
        } else {
            1
        },
    }
}

/// The rectangle that the panes fill, see [`padded`].
pub fn content_rect(width: u32, height: u32, padding: u32) -> (rect: Rect)
    ensures
        rect == padded(width, height, padding),
{
    let both: u64 = 2 * (padding as u64);
    let w = if width as u64 > both {
        (width as u64 - both) as u32
    } else {
        1
    };
    let h = if height as u64 > both {
        (height as u64 - both) as u32
    } else {
        1
    };
    Rect::new(padding, padding, w, h)
}

/// The milliseconds between two frames at `target_fps` frames a second; a
/// rate of 0 counts as 1.
pub fn frame_interval_ms(target_fps: u32) -> (ms: u64)
    ensures
        ms == 1000int / (if target_fps == 0 {
            1int
        } else {
            target_fps as int
        }),
{
    let fps: u64 = if target_fps == 0 {
        1
    } else {
        target_fps as u64
    };
    1000 / fps
}

} // verus!
