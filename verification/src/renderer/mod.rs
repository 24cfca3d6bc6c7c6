//! What a frame shows, as far as it is arithmetic on cells and pixels: the
//! selection, the inset of pane contents, the separators between panes and
//! the part of the scrollback that is in view.

pub mod text_renderer;

use vstd::prelude::*;
use crate::pane::layout::Rect;

verus! {

/// The width of the separator between two panes, in pixels.
pub const BORDER_WIDTH: u32 = 1;

/// The space between a separator and the text of the pane, in pixels.
pub const BORDER_PADDING: u32 = 8;

/// A selection in absolute rows: rows `0..scrollback.len()` are the
/// scrollback, oldest first, and the rows behind them the screen. Both
/// ends are `(abs_row, col)`.
#[derive(Debug, Clone, Copy)]
pub struct Selection {
    /// Where the selection began.
    pub anchor: (usize, usize),
    /// Where the pointer is now.
    pub head: (usize, usize),
}

/// Whether the position `a` comes before `b` in reading order, or is `b`.
pub open spec fn reads_before(a: (usize, usize), b: (usize, usize)) -> bool {
    a.0 < b.0 || (a.0 == b.0 && a.1 <= b.1)
}

impl Selection {
    /// The two ends in reading order.
    pub open spec fn spec_normalized(&self) -> ((usize, usize), (usize, usize)) {
        if reads_before(self.anchor, self.head) {
            (self.anchor, self.head)
        } else {
            (self.head, self.anchor)
        }
    }

    /// Whether the selection is a single position: a click, not a drag.
    pub open spec fn spec_is_empty(&self) -> bool {
        self.anchor == self.head
    }

    /// The two ends of the selection in reading order: the earlier first.
    #[verifier::when_used_as_spec(spec_normalized)]
    pub fn normalized(&self) -> (ends: ((usize, usize), (usize, usize)))
        ensures
            ends == self.spec_normalized(),
            reads_before(ends.0, ends.1),
    {
        if self.anchor.0 < self.head.0 || (self.anchor.0 == self.head.0 && self.anchor.1
            <= self.head.1) {
            (self.anchor, self.head)
        } else {
            (self.head, self.anchor)
        }
    }

    /// Whether the selection is a single position: a click, not a drag.
    #[verifier::when_used_as_spec(spec_is_empty)]
    pub fn is_empty(&self) -> (empty: bool)
        ensures
            empty == self.spec_is_empty(),
    {
        self.anchor.0 == self.head.0 && self.anchor.1 == self.head.1
    }
}

/// The columns of the row `abs_row` that a selection from `start` to `end`
/// covers on a grid of `cols` columns: first and last column, both
/// included.
pub open spec fn selected_columns(
    abs_row: int,
    start: (usize, usize),
    end: (usize, usize),
    cols: int,
) -> (int, int) {
    (
        if abs_row == start.0 {
            start.1 as int
        } else {
            0
        },
        if abs_row == end.0 && end.1 < cols - 1 {
            end.1 as int
        } else {
            cols - 1
        },
    )
}

/// The highlighted spans of a selection from `start` to `end`: one entry
/// `(abs_row, first column, last column)` for each row from `start.0` to
/// `end.0` that exists, up to the row `upto`.
pub open spec fn selection_spans(
    start: (usize, usize),
    end: (usize, usize),
    cols: int,
    upto: int,
) -> Seq<(int, int, int)>
    decreases upto - start.0,
{
    if upto <= start.0 {
        Seq::empty()
    } else {
        let row = upto - 1;
        let (first, last) = selected_columns(row, start, end, cols);
        selection_spans(start, end, cols, row).push((row, first, last))
    }
}

/// What a list of spans holds.
pub open spec fn spans_view(spans: Seq<(usize, usize, usize)>) -> Seq<(int, int, int)> {
    Seq::new(spans.len(), |i: int| (spans[i].0 as int, spans[i].1 as int, spans[i].2 as int))
}

/// The spans that a selection highlights on a grid of `cols` columns and
/// `total_rows` rows, scrollback included: for each row of the selection
/// that exists, the row with its first and last selected column. The first
/// row starts at the column of the earlier end, the last row ends at the
/// column of the later end, and every row between is selected whole.
pub fn selection_rows(selection: &Selection, total_rows: usize, cols: usize) -> (spans: Vec<
    (usize, usize, usize),
>)
    requires
        cols >= 1,
    ensures
        spans_view(spans@) == selection_spans(
            selection.spec_normalized().0,
            selection.spec_normalized().1,
            cols as int,
            if selection.spec_normalized().1.0 < total_rows {
                selection.spec_normalized().1.0 + 1
            } else {
                total_rows as int
            },
        ),
{
    let (start, end) = selection.normalized();
    let stop = if end.0 < total_rows {
        end.0 + 1
    } else {
        total_rows
    };
    let mut spans: Vec<(usize, usize, usize)> = Vec::new();
    let mut row: usize = start.0;
    while row < stop
        invariant
            start.0 <= row,
            row <= stop || row == start.0,
            cols >= 1,
            spans_view(spans@) == selection_spans(start, end, cols as int, row as int),
        decreases stop - row,
    {
        let first = if row == start.0 {
            start.1
        } else {
            0
        };
        let last = if row == end.0 && end.1 < cols - 1 {
            end.1
        } else {
            cols - 1
        };
        let ghost before = spans_view(spans@);
        spans.push((row, first, last));
        assert(spans_view(spans@) =~= before.push((row as int, first as int, last as int)));
        row += 1;
    }
    spans
}

/// Where the contents of a pane begin along one axis: at the edge of the
/// pane where that is the edge of the window, and behind separator and
/// padding elsewhere.
pub open spec fn inset(edge: u32, window_edge: u32) -> int {
    if edge > window_edge {
        edge + BORDER_WIDTH + BORDER_PADDING
    } else {
        edge as int
    }
}

/// The origin of the contents of the pane at `pane` in a window whose
/// contents fill `window`: the corner of the pane, moved in by separator
/// and padding on each side on which the pane does not touch the edge of
/// the window.
pub fn content_origin(pane: Rect, window: Rect) -> (origin: (u64, u64))
    ensures
        origin.0 == inset(pane.x, window.x),
        origin.1 == inset(pane.y, window.y),
{
    let x = if pane.x > window.x {
        pane.x as u64 + (BORDER_WIDTH + BORDER_PADDING) as u64
    } else {
        pane.x as u64
    };
    let y = if pane.y > window.y {
        pane.y as u64 + (BORDER_WIDTH + BORDER_PADDING) as u64
    } else {
        pane.y as u64
    };
    (x, y)
}

/// The separators of one pane: a line along its left edge, then one along
/// its upper edge, each only where that edge is not the edge of the
/// window.
pub open spec fn pane_borders(pane: Rect, window: Rect) -> Seq<Rect> {
    let left = if pane.x > window.x {
        seq![Rect { x: pane.x, y: pane.y, width: BORDER_WIDTH, height: pane.height }]
    } else {
        Seq::empty()
    };
    let top = if pane.y > window.y {
        seq![Rect { x: pane.x, y: pane.y, width: pane.width, height: BORDER_WIDTH }]
    } else {
        Seq::empty()
    };
    left + top
}

/// The separators of the first `upto` panes of `rects`.
pub open spec fn borders_upto(rects: Seq<(u64, Rect)>, window: Rect, upto: int) -> Seq<Rect>
    decreases upto,
{
    if upto <= 0 {
        Seq::empty()
    } else {
        borders_upto(rects, window, upto - 1) + pane_borders(rects[upto - 1].1, window)
    }
}

/// The separators of a window: none for a single pane, else those of every
/// pane, in the order of `rects`.
pub open spec fn borders_of(rects: Seq<(u64, Rect)>, window: Rect) -> Seq<Rect> {
    if rects.len() > 1 {
        borders_upto(rects, window, rects.len() as int)
    } else {
        Seq::empty()
    }
}

/// The separator lines between the panes that `layout_rects` places in a
/// window whose contents fill `window`: one pixel wide, along every left
/// and upper edge of a pane that is not the edge of the window. A window
/// with a single pane has none.
pub fn border_rects(layout_rects: &[(u64, Rect)], window: Rect) -> (borders: Vec<Rect>)
    ensures
        borders@ == borders_of(layout_rects@, window),
{
    let mut borders: Vec<Rect> = Vec::new();
    if layout_rects.len() <= 1 {
        return borders;
    }
    let mut i: usize = 0;
    while i < layout_rects.len()
        invariant
            i <= layout_rects@.len(),
            borders@ == borders_upto(layout_rects@, window, i as int),
        decreases layout_rects@.len() - i,
    {
        let pane = layout_rects[i].1;
        let ghost before = borders@;
        if pane.x > window.x {
            borders.push(Rect::new(pane.x, pane.y, BORDER_WIDTH, pane.height));
        }
        if pane.y > window.y {
            borders.push(Rect::new(pane.x, pane.y, pane.width, BORDER_WIDTH));
        }
        assert(borders@ =~= before + pane_borders(pane, window));
        i += 1;
    }
    borders
}

/// The rows of scrollback that a view scrolled back by `scroll_offset`
/// pixels may show, as the absolute rows `first..scrollback_len`: the rows
/// that the offset uncovers, counted in whole cells and rounded up, and as
/// many more as the screen has rows. `None` for a view that is not scrolled
/// and for an empty scrollback.
pub open spec fn scrollback_rows(
    scrollback_len: int,
    visible_rows: int,
    scroll_offset: int,
    cell_h: int,
) -> Option<(int, int)> {
    if scroll_offset <= 0 || scrollback_len <= 0 {
        None
    } else {
        let rows_above = (scroll_offset + cell_h - 1) / cell_h;
        if rows_above + visible_rows >= scrollback_len {
            Some((0, scrollback_len))
        } else {
            Some((scrollback_len - (rows_above + visible_rows), scrollback_len))
        }
    }
}

/// The rows of scrollback that are shaped for a view scrolled back by
/// `scroll_offset` pixels, see [`scrollback_rows`]. The pair is also the
/// key under which the shaped rows are kept: they are shaped again when
/// the scrollback grows or the first row changes, and dropped when the
/// view is back at the bottom.
pub fn scrollback_window(
    scrollback_len: usize,
    visible_rows: usize,
    scroll_offset: u32,
    cell_h: u32,
) -> (window: Option<(usize, usize)>)
    requires
        cell_h >= 1,
    ensures
        match window {
            Some((first, end)) => scrollback_rows(
                scrollback_len as int,
                visible_rows as int,
                scroll_offset as int,
                cell_h as int,
            ) == Some((first as int, end as int)),
            None => scrollback_rows(
                scrollback_len as int,
                visible_rows as int,
                scroll_offset as int,
                cell_h as int,
            ) is None,
        },
{
    if scroll_offset == 0 || scrollback_len == 0 {
        return None;
    }
    let above: u64 = (scroll_offset as u64 + cell_h as u64 - 1) / cell_h as u64;
    assert(above <= scroll_offset) by (nonlinear_arith)
        requires
            above == (scroll_offset + cell_h - 1) / (cell_h as int),
            cell_h >= 1,
            scroll_offset >= 1,
    ;
    let rows_above = above as usize;
    if rows_above >= scrollback_len || visible_rows >= scrollback_len - rows_above {
        Some((0, scrollback_len))
    } else {
        Some((scrollback_len - rows_above - visible_rows, scrollback_len))
    }
}

/// The cell under a point of a pane, as `(abs_row, col)`: the row is the
/// one whose band of `cell_h` pixels holds `py`, counted from the top of
/// the pane moved down by the scroll offset, so that the first row of the
/// screen has the absolute index `scrollback_len`; the column is held
/// inside the grid. `None` for a point above the first row of the
/// scrollback or below the last row of the screen.
pub open spec fn cell_at(
    px: int,
    py: int,
    pane: Rect,
    scroll_offset: int,
    cell_w: int,
    cell_h: int,
    scrollback_len: int,
    rows: int,
    cols: int,
) -> Option<(int, int)> {
    let abs_row = scrollback_len + (py - pane.y - scroll_offset) / cell_h;
    let col = (px - pane.x) / cell_w;
    if abs_row < 0 || abs_row >= scrollback_len + rows {
        None
    } else {
        Some(
            (
                abs_row,
                if col < 0 {
                    0
                } else if col > cols - 1 {
                    cols - 1
                } else {
                    col
                },
            ),
        )
    }
}

/// The cell under the point (`px`, `py`) of the window, see [`cell_at`].
pub fn pixel_to_cell(
    px: u32,
    py: u32,
    pane: Rect,
    scroll_offset: u32,
    cell_w: u32,
    cell_h: u32,
    scrollback_len: usize,
    rows: usize,
    cols: usize,
) -> (cell: Option<(usize, usize)>)
    requires
        cell_w >= 1,
        cell_h >= 1,
        cols >= 1,
        scrollback_len + rows <= usize::MAX,
    ensures
        match cell {
            Some((row, col)) => cell_at(
                px as int,
                py as int,
                pane,
                scroll_offset as int,
                cell_w as int,
                cell_h as int,
                scrollback_len as int,
                rows as int,
                cols as int,
            ) == Some((row as int, col as int)),
            None => cell_at(
                px as int,
                py as int,
                pane,
                scroll_offset as int,
                cell_w as int,
                cell_h as int,
                scrollback_len as int,
                rows as int,
                cols as int,
            ) is None,
        },
{
    let dy: i64 = py as i64 - pane.y as i64 - scroll_offset as i64;
    let dx: i64 = px as i64 - pane.x as i64;
    let h = cell_h as i64;
    let w = cell_w as i64;
    // Division that rounds towards minus infinity.
    let row_idx: i64 = if dy >= 0 {
        dy / h
    } else {
        -((-dy + h - 1) / h)
    };
    let col_idx: i64 = if dx >= 0 {
        dx / w
    } else {
        -((-dx + w - 1) / w)
    };
    proof {
        lemma_floor_div(dy as int, h as int);
        lemma_floor_div(dx as int, w as int);
    }
    if row_idx < 0 && (-row_idx) as u64 > scrollback_len as u64 {
        return None;
    }
    let abs_row: usize = if row_idx < 0 {
        scrollback_len - ((-row_idx) as usize)
    } else {
        if row_idx as u64 >= rows as u64 {
            return None;
        }
        scrollback_len + row_idx as usize
    };
    let col: usize = if col_idx < 0 {
        0
    } else if col_idx as u64 > (cols - 1) as u64 {
        cols - 1
    } else {
        col_idx as usize
    };
    Some((abs_row, col))
}

/// The quotient of a negative number by a positive one, rounded towards
/// minus infinity, is the quotient of the absolute value rounded up, with
/// the sign changed.
pub proof fn lemma_floor_div(a: int, d: int)
    requires
        d > 0,
    ensures
        a < 0 ==> a / d == -((-a + d - 1) / d),
{
    if a < 0 {
        let q = (-a + d - 1) / d;
        assert(a / d == -q) by (nonlinear_arith)
            requires
                d > 0,
                a < 0,
                q == (-a + d - 1) / d,
        ;
    }
}

} // verus!
