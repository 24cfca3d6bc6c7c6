//! The cell grid: a fixed rectangle of cells with a cursor, a scroll region
//! and a bounded scrollback, together with its mathematical model.
//!
//! Every mutating method of [`TerminalGrid`] states its effect as an equation
//! between the models of the grid before and after the call.

use vstd::prelude::*;
use crate::terminal::cell::{Cell, CellAttributes};

verus! {

/// Number of scrollback rows a new grid keeps.
pub const DEFAULT_SCROLLBACK_LIMIT: usize = 10000;

/// The generation counter after one more visible mutation.
pub open spec fn bump(generation: u64) -> u64 {
    if generation == u64::MAX {
        0
    } else {
        (generation + 1) as u64
    }
}

/// A row of `cols` copies of `cell`.
pub open spec fn uniform_row(cols: int, cell: Cell) -> Seq<Cell> {
    Seq::new(cols as nat, |c: int| cell)
}

/// What a buffer of rows holds, row by row.
pub open spec fn rows_view(rows: Seq<Vec<Cell>>) -> Seq<Seq<Cell>> {
    Seq::new(rows.len(), |r: int| rows[r]@)
}

/// `cells` has `rows` rows of `cols` cells each.
pub open spec fn rectangular(cells: Seq<Seq<Cell>>, cols: int, rows: int) -> bool {
    &&& cells.len() == rows
    &&& forall|r: int| 0 <= r < rows ==> (#[trigger] cells[r]).len() == cols
}

/// `cells` with the columns `from..to` of row `row` set to `cell`.
pub open spec fn filled(cells: Seq<Seq<Cell>>, row: int, from: int, to: int, cell: Cell) -> Seq<
    Seq<Cell>,
> {
    Seq::new(
        cells.len(),
        |r: int|
            if r == row {
                Seq::new(
                    cells[r].len(),
                    |c: int|
                        if from <= c < to {
                            cell
                        } else {
                            cells[r][c]
                        },
                )
            } else {
                cells[r]
            },
    )
}

/// `cells` with every cell of the rows `from..to` set to `cell`.
pub open spec fn rows_filled(cells: Seq<Seq<Cell>>, from: int, to: int, cell: Cell) -> Seq<
    Seq<Cell>,
> {
    Seq::new(
        cells.len(),
        |r: int|
            if from <= r < to {
                uniform_row(cells[r].len() as int, cell)
            } else {
                cells[r]
            },
    )
}

/// The rows `top..=bottom` of `cells` moved up by `count`; the `count` rows
/// that open at the bottom of the region hold `cell`.
pub open spec fn scrolled_up(
    cells: Seq<Seq<Cell>>,
    top: int,
    bottom: int,
    count: int,
    cell: Cell,
) -> Seq<Seq<Cell>> {
    Seq::new(
        cells.len(),
        |r: int|
            if top <= r <= bottom - count {
                cells[r + count]
            } else if bottom - count < r <= bottom {
                uniform_row(cells[r].len() as int, cell)
            } else {
                cells[r]
            },
    )
}

/// The rows `top..=bottom` of `cells` moved down by `count`; the `count` rows
/// that open at the top of the region hold `cell`.
pub open spec fn scrolled_down(
    cells: Seq<Seq<Cell>>,
    top: int,
    bottom: int,
    count: int,
    cell: Cell,
) -> Seq<Seq<Cell>> {
    Seq::new(
        cells.len(),
        |r: int|
            if top + count <= r <= bottom {
                cells[r - count]
            } else if top <= r < top + count {
                uniform_row(cells[r].len() as int, cell)
            } else {
                cells[r]
            },
    )
}

/// The newest `limit` rows of `rows` (all of them when there are fewer).
pub open spec fn capped(rows: Seq<Seq<Cell>>, limit: int) -> Seq<Seq<Cell>> {
    if rows.len() > limit {
        rows.subrange(rows.len() - limit, rows.len() as int)
    } else {
        rows
    }
}

/// The smaller of two integers.
pub open spec fn min_int(a: int, b: int) -> int {
    if a <= b {
        a
    } else {
        b
    }
}

/// Number of cells among the first `upto` of `row` that are in reverse video.
pub open spec fn reverse_count(row: Seq<Cell>, upto: int) -> int
    decreases upto,
{
    if upto <= 0 {
        0
    } else {
        reverse_count(row, upto - 1) + if row[upto - 1].attrs.reverse {
            1int
        } else {
            0int
        }
    }
}

/// `row` holds between one and three reverse-video cells: the mark of a
/// cursor that an application draws itself.
pub open spec fn has_drawn_cursor(row: Seq<Cell>) -> bool {
    1 <= reverse_count(row, row.len() as int) <= 3
}

/// `col` is the leftmost reverse-video cell of `row`.
pub open spec fn is_first_reverse(row: Seq<Cell>, col: int) -> bool {
    &&& 0 <= col < row.len()
    &&& row[col].attrs.reverse
    &&& forall|c: int| 0 <= c < col ==> !(#[trigger] row[c]).attrs.reverse
}

/// The mathematical model of a [`TerminalGrid`].
pub struct GridModel {
    pub cols: int,
    pub rows: int,
    /// `rows` rows of `cols` cells, top row first.
    pub cells: Seq<Seq<Cell>>,
    pub cursor_col: int,
    pub cursor_row: int,
    pub scroll_top: int,
    pub scroll_bottom: int,
    /// Rows that left the top of the scroll region, oldest first.
    pub scrollback: Seq<Seq<Cell>>,
    pub scrollback_limit: int,
    pub current_attrs: CellAttributes,
    pub title: Seq<char>,
    pub pending_wrap: bool,
    pub generation: u64,
    pub bracketed_paste: bool,
    pub cursor_visible: bool,
    pub reverse_cursor: Option<(int, int)>,
}

impl GridModel {
    /// The invariant of a grid: a rectangle of at least one cell, the cursor
    /// and the scroll region inside it, the scrollback within its limit.
    pub open spec fn wf(self) -> bool {
        &&& self.cols >= 1
        &&& self.rows >= 1
        &&& rectangular(self.cells, self.cols, self.rows)
        &&& 0 <= self.cursor_col < self.cols
        &&& 0 <= self.cursor_row < self.rows
        &&& 0 <= self.scroll_top <= self.scroll_bottom < self.rows
        &&& self.scrollback.len() <= self.scrollback_limit
    }

    /// An empty grid of the given size.
    pub open spec fn fresh(cols: int, rows: int) -> GridModel {
        GridModel {
            cols,
            rows,
            cells: Seq::new(rows as nat, |r: int| uniform_row(cols, Cell::blank())),
            cursor_col: 0,
            cursor_row: 0,
            scroll_top: 0,
            scroll_bottom: rows - 1,
            scrollback: Seq::empty(),
            scrollback_limit: DEFAULT_SCROLLBACK_LIMIT as int,
            current_attrs: CellAttributes::plain(),
            title: Seq::empty(),
            pending_wrap: false,
            generation: 0,
            bracketed_paste: false,
            cursor_visible: true,
            reverse_cursor: None,
        }
    }

    /// The cell that a scroll leaves behind: empty, on the current background.
    pub open spec fn scroll_blank(self) -> Cell {
        Cell::blank_on(self.current_attrs.bg)
    }

    /// The grid as one more visible mutation after `before` leaves it.
    pub open spec fn stamped(self, before: u64) -> GridModel {
        GridModel { generation: bump(before), ..self }
    }

    /// The grid at the size `cols` × `rows`: unchanged at its own size; else
    /// with the cells that are in both rectangles, blank elsewhere, the
    /// scroll region the whole screen and the cursor inside.
    pub open spec fn resize(self, cols: int, rows: int) -> GridModel {
        if cols == self.cols && rows == self.rows {
            self
        } else {
            GridModel {
                cols,
                rows,
                cells: Seq::new(
                    rows as nat,
                    |r: int|
                        Seq::new(
                            cols as nat,
                            |c: int|
                                if r < self.rows && c < self.cols {
                                    self.cells[r][c]
                                } else {
                                    Cell::blank()
                                },
                        ),
                ),
                cursor_col: min_int(self.cursor_col, cols - 1),
                cursor_row: min_int(self.cursor_row, rows - 1),
                scroll_top: 0,
                scroll_bottom: rows - 1,
                pending_wrap: false,
                generation: bump(self.generation),
                ..self
            }
        }
    }

    /// The grid with `ch` in the current attributes at (`col`, `row`); the
    /// grid itself for a position outside it.
    pub open spec fn set_cell(self, col: int, row: int, ch: char) -> GridModel {
        if 0 <= row < self.rows && 0 <= col < self.cols {
            GridModel {
                cells: filled(self.cells, row, col, col + 1, Cell { ch, attrs: self.current_attrs }),
                generation: bump(self.generation),
                ..self
            }
        } else {
            self
        }
    }

    /// The grid with the row `row` blank; the grid itself for a row outside
    /// it.
    pub open spec fn clear_line(self, row: int) -> GridModel {
        if 0 <= row < self.rows {
            GridModel {
                cells: rows_filled(self.cells, row, row + 1, Cell::blank()),
                generation: bump(self.generation),
                ..self
            }
        } else {
            self
        }
    }

    /// The grid with the columns `col_start..col_end` of the row `row` blank,
    /// as far as they lie inside it; the grid itself where none does.
    pub open spec fn clear_line_range(self, row: int, col_start: int, col_end: int) -> GridModel {
        if 0 <= row < self.rows && 0 <= col_start < min_int(col_end, self.cols) {
            GridModel {
                cells: filled(
                    self.cells,
                    row,
                    col_start,
                    min_int(col_end, self.cols),
                    Cell::blank(),
                ),
                generation: bump(self.generation),
                ..self
            }
        } else {
            self
        }
    }

    /// The grid with every row blank and the cursor at the top left.
    pub open spec fn clear_screen(self) -> GridModel {
        GridModel {
            cells: rows_filled(self.cells, 0, self.rows, Cell::blank()),
            cursor_col: 0,
            cursor_row: 0,
            pending_wrap: false,
            generation: bump(self.generation),
            ..self
        }
    }

    /// How many rows a scroll by `count` really moves: at most the height of
    /// the scroll region.
    pub open spec fn scroll_count(self, count: int) -> int {
        min_int(count, self.scroll_bottom - self.scroll_top + 1)
    }

    /// The grid with the scroll region moved up by `count` rows, at most by
    /// its height: the rows that leave it go to the scrollback, which keeps
    /// its newest rows; the rows that open are empty, on the current
    /// background. A count below 1 changes nothing.
    pub open spec fn scroll_up_region(self, count: int) -> GridModel {
        let n = self.scroll_count(count);
        if n <= 0 {
            self
        } else {
            GridModel {
                cells: scrolled_up(
                    self.cells,
                    self.scroll_top,
                    self.scroll_bottom,
                    n,
                    self.scroll_blank(),
                ),
                scrollback: capped(
                    self.scrollback + self.cells.subrange(self.scroll_top, self.scroll_top + n),
                    self.scrollback_limit,
                ),
                generation: bump(self.generation),
                ..self
            }
        }
    }

    /// The grid with the scroll region moved down by `count` rows, at most by
    /// its height: the rows that leave it are lost; the rows that open are
    /// empty, on the current background. A count below 1 changes nothing.
    pub open spec fn scroll_down_region(self, count: int) -> GridModel {
        let n = self.scroll_count(count);
        if n <= 0 {
            self
        } else {
            GridModel {
                cells: scrolled_down(
                    self.cells,
                    self.scroll_top,
                    self.scroll_bottom,
                    n,
                    self.scroll_blank(),
                ),
                generation: bump(self.generation),
                ..self
            }
        }
    }

    /// Line feed: the wrap latch is cleared; on the last row of the scroll
    /// region the region scrolls up by one; elsewhere the cursor moves down,
    /// unless it is on the last row of the screen.
    pub open spec fn newline(self) -> GridModel {
        let g = GridModel { pending_wrap: false, ..self };
        if self.cursor_row == self.scroll_bottom {
            g.scroll_up_region(1)
        } else if self.cursor_row < self.rows - 1 {
            GridModel { cursor_row: self.cursor_row + 1, ..g }
        } else {
            g
        }
    }

    /// The cursor in the first column, the wrap latch cleared.
    pub open spec fn carriage_return(self) -> GridModel {
        GridModel { cursor_col: 0, pending_wrap: false, ..self }
    }

    /// The cursor `width` columns further right; where that would leave the
    /// grid, the cursor where it is and the wrap latch set.
    pub open spec fn advance_cursor_by_width(self, width: int) -> GridModel {
        if self.cursor_col + width < self.cols {
            GridModel { cursor_col: self.cursor_col + width, pending_wrap: false, ..self }
        } else {
            GridModel { pending_wrap: true, ..self }
        }
    }

    /// The rows that an absolute row index can name: scrollback and screen.
    pub open spec fn total_rows(self) -> int {
        self.scrollback.len() + self.rows
    }

    /// The row with absolute index `abs_row`: scrollback first, oldest row
    /// at 0, then the live rows.
    pub open spec fn abs_row(self, abs_row: int) -> Seq<Cell> {
        if abs_row < self.scrollback.len() {
            self.scrollback[abs_row]
        } else {
            self.cells[abs_row - self.scrollback.len()]
        }
    }

    /// The text that the selection takes from the row `abs_row`: the cells
    /// from the start column (on the first row) to the end column (on the
    /// last row), without the white space at the end.
    pub open spec fn line_text(self, abs_row: int, start: (int, int), end: (int, int)) -> Seq<
        char,
    > {
        let row = self.abs_row(abs_row);
        let from = if abs_row == start.0 {
            start.1
        } else {
            0
        };
        let to = if abs_row == end.0 {
            min_int(end.1 + 1, row.len() as int)
        } else {
            row.len() as int
        };
        trimmed_end(cell_chars(row, from, to))
    }

    /// The lines of the rows `start.0..upto`, joined by line feeds.
    pub open spec fn selection_upto(self, start: (int, int), end: (int, int), upto: int) -> Seq<
        char,
    >
        decreases upto - start.0,
    {
        if upto <= start.0 {
            Seq::empty()
        } else if upto - 1 == start.0 {
            self.line_text(start.0, start, end)
        } else {
            self.selection_upto(start, end, upto - 1).push('\n') + self.line_text(
                upto - 1,
                start,
                end,
            )
        }
    }

    /// The text between `start` and `end`, both `(absolute row, column)` and
    /// both included: one line for each row that exists, joined by line feeds.
    pub open spec fn selection_text(self, start: (int, int), end: (int, int)) -> Seq<char> {
        self.selection_upto(start, end, min_int(end.0 + 1, self.total_rows()))
    }

    /// What `detect_reverse_cursor` leaves: the grid with the cursor that an
    /// application drew, `found`, noted.
    pub open spec fn with_reverse_cursor(self, found: Option<(int, int)>) -> GridModel {
        GridModel { reverse_cursor: found, ..self }
    }
}

/// `found` names the drawn cursor of `cells`: the leftmost reverse-video cell
/// of the lowest row that holds between one and three such cells; or there
/// is no such row and `found` is `None`.
pub open spec fn is_drawn_cursor(cells: Seq<Seq<Cell>>, found: Option<(int, int)>) -> bool {
    match found {
        Some((row, col)) => {
            &&& 0 <= row < cells.len()
            &&& has_drawn_cursor(cells[row])
            &&& forall|r: int| row < r < cells.len() ==> !has_drawn_cursor(#[trigger] cells[r])
            &&& is_first_reverse(cells[row], col)
        },
        None => forall|r: int| 0 <= r < cells.len() ==> !has_drawn_cursor(#[trigger] cells[r]),
    }
}

/// A terminal screen: `rows` × `cols` cells, the cursor, the scroll region,
/// the scrollback and the mode latches that escape sequences set.
#[derive(Debug, Clone)]
pub struct TerminalGrid {
    pub cols: usize,
    pub rows: usize,
    pub cells: Vec<Vec<Cell>>,
    pub cursor_col: usize,
    pub cursor_row: usize,
    pub scroll_top: usize,
    pub scroll_bottom: usize,
    pub scrollback: Vec<Vec<Cell>>,
    pub scrollback_limit: usize,
    pub current_attrs: CellAttributes,
    pub title: String,
    /// The cursor printed into the last column: the next character wraps first.
    pub pending_wrap: bool,
    /// Advanced once by every operation that writes cells or scrollback.
    pub generation: u64,
    pub bracketed_paste: bool,
    pub cursor_visible: bool,
    /// `(row, col)` of a cursor that an application draws in reverse video.
    pub reverse_cursor: Option<(usize, usize)>,
}

impl View for TerminalGrid {
    type V = GridModel;

    open spec fn view(&self) -> GridModel {
        GridModel {
            cols: self.cols as int,
            rows: self.rows as int,
            cells: rows_view(self.cells@),
            cursor_col: self.cursor_col as int,
            cursor_row: self.cursor_row as int,
            scroll_top: self.scroll_top as int,
            scroll_bottom: self.scroll_bottom as int,
            scrollback: rows_view(self.scrollback@),
            scrollback_limit: self.scrollback_limit as int,
            current_attrs: self.current_attrs,
            title: self.title@,
            pending_wrap: self.pending_wrap,
            generation: self.generation,
            bracketed_paste: self.bracketed_paste,
            cursor_visible: self.cursor_visible,
            reverse_cursor: match self.reverse_cursor {
                Some((r, c)) => Some((r as int, c as int)),
                None => None,
            },
        }
    }
}

/// A row of `cols` copies of `cell`.
pub fn make_row(cols: usize, cell: Cell) -> (row: Vec<Cell>)
    ensures
        row@ == uniform_row(cols as int, cell),
{
    let mut row: Vec<Cell> = Vec::new();
    let mut c: usize = 0;
    while c < cols
        invariant
            c <= cols,
            row@.len() == c,
            forall|i: int| 0 <= i < c ==> row@[i] == cell,
        decreases cols - c,
    {
        row.push(cell);
        c += 1;
    }
    assert(row@ =~= uniform_row(cols as int, cell));
    row
}

/// Sets the columns `from..to` of row `row` to `cell`.
pub fn fill_cells(cells: &mut Vec<Vec<Cell>>, row: usize, from: usize, to: usize, cell: Cell)
    requires
        row < old(cells).len(),
        to <= old(cells)[row as int].len(),
    ensures
        final(cells).len() == old(cells).len(),
        rows_view(final(cells)@) == filled(
            rows_view(old(cells)@),
            row as int,
            from as int,
            to as int,
            cell,
        ),
{
    let ghost before = rows_view(cells@);
    let mut c: usize = from;
    while c < to
        invariant
            from <= c,
            c <= to || c == from,
            row < cells.len(),
            cells.len() == before.len(),
            to <= cells@[row as int]@.len(),
            cells@[row as int]@.len() == before[row as int].len(),
            forall|r: int| 0 <= r < cells.len() && r != row ==> (#[trigger] cells@[r])@ == before[r],
            forall|i: int|
                0 <= i < before[row as int].len() ==> #[trigger] cells@[row as int]@[i] == if from
                    <= i < c {
                    cell
                } else {
                    before[row as int][i]
                },
        decreases to - c,
    {
        cells[row][c] = cell;
        c += 1;
    }
    assert(rows_view(cells@) =~~= filled(before, row as int, from as int, to as int, cell));
}

/// Sets every cell of the rows `from..to` to `cell`.
pub fn fill_rows(cells: &mut Vec<Vec<Cell>>, from: usize, to: usize, cell: Cell)
    requires
        to <= old(cells).len(),
    ensures
        final(cells).len() == old(cells).len(),
        rows_view(final(cells)@) == rows_filled(rows_view(old(cells)@), from as int, to as int, cell),
{
    let ghost before = rows_view(cells@);
    let mut r: usize = from;
    while r < to
        invariant
            from <= r,
            r <= to || r == from,
            to <= cells.len(),
            cells.len() == before.len(),
            forall|i: int|
                0 <= i < before.len() ==> (#[trigger] cells@[i])@ == if from <= i < r {
                    uniform_row(before[i].len() as int, cell)
                } else {
                    before[i]
                },
        decreases to - r,
    {
        let width = cells[r].len();
        let ghost mid = rows_view(cells@);
        fill_cells(cells, r, 0, width, cell);
        proof {
            let after = filled(mid, r as int, 0, width as int, cell);
            assert(after[r as int] =~= uniform_row(width as int, cell));
            assert forall|i: int| 0 <= i < before.len() implies (#[trigger] cells@[i])@ == if from
                <= i < r + 1 {
                uniform_row(before[i].len() as int, cell)
            } else {
                before[i]
            } by {
                assert(rows_view(cells@)[i] == cells@[i]@);
                assert(after[i] == if i == r { after[r as int] } else { mid[i] });
            }
        }
        r += 1;
    }
    assert(rows_view(cells@) =~~= rows_filled(before, from as int, to as int, cell));
}

/// Moves the rows `top..=bottom` up by `count`, appends the rows that leave
/// the region to `scrollback`, oldest first, and keeps of `scrollback` the
/// newest `limit` rows.
pub fn scroll_rows_up(
    cells: &mut Vec<Vec<Cell>>,
    scrollback: &mut Vec<Vec<Cell>>,
    limit: usize,
    top: usize,
    bottom: usize,
    count: usize,
    cols: usize,
    cell: Cell,
)
    requires
        rectangular(rows_view(old(cells)@), cols as int, old(cells).len() as int),
        top <= bottom < old(cells).len(),
        count <= bottom - top + 1,
        old(scrollback).len() <= limit,
    ensures
        final(cells).len() == old(cells).len(),
        rows_view(final(cells)@) == scrolled_up(
            rows_view(old(cells)@),
            top as int,
            bottom as int,
            count as int,
            cell,
        ),
        rows_view(final(scrollback)@) == capped(
            rows_view(old(scrollback)@) + rows_view(old(cells)@).subrange(
                top as int,
                top + count,
            ),
            limit as int,
        ),
{
    let ghost before = rows_view(cells@);
    let ghost kept = rows_view(scrollback@);
    let mut i: usize = 0;
    assert(rows_view(cells@) =~~= scrolled_up(before, top as int, bottom as int, 0, cell));
    assert(rows_view(scrollback@) =~~= capped(
        kept + before.subrange(top as int, top as int),
        limit as int,
    ));
    while i < count
        invariant
            i <= count,
            count <= bottom - top + 1,
            top <= bottom < cells.len(),
            cells.len() == before.len(),
            rectangular(before, cols as int, before.len() as int),
            kept.len() <= limit,
            scrollback.len() <= limit,
            rows_view(cells@) == scrolled_up(before, top as int, bottom as int, i as int, cell),
            rows_view(scrollback@) == capped(
                kept + before.subrange(top as int, top + i),
                limit as int,
            ),
        decreases count - i,
    {
        let ghost cur = cells@;
        let ghost sb = scrollback@;
        let row = cells.remove(top);
        cells.insert(bottom, make_row(cols, cell));
        scrollback.push(row);
        if scrollback.len() > limit {
            scrollback.remove(0);
        }
        proof {
            assert(rows_view(cur)[top as int] == cur[top as int]@);
            assert(row@ == before[top + i]);
            assert forall|r: int| 0 <= r < cells.len() implies (#[trigger] cells@[r])@
                == scrolled_up(before, top as int, bottom as int, i + 1, cell)[r] by {
                if r < top {
                    assert(rows_view(cur)[r] == cur[r]@);
                } else if r < bottom {
                    assert(rows_view(cur)[r + 1] == cur[r + 1]@);
                } else if r > bottom {
                    assert(rows_view(cur)[r] == cur[r]@);
                }
            }
            assert(rows_view(cells@) =~~= scrolled_up(
                before,
                top as int,
                bottom as int,
                i + 1,
                cell,
            ));
            let longer = kept + before.subrange(top as int, top + i + 1);
            let shorter = kept + before.subrange(top as int, top + i);
            assert(longer =~~= shorter.push(before[top + i]));
            assert forall|j: int| 0 <= j < sb.len() implies (#[trigger] sb[j])@ == capped(
                shorter,
                limit as int,
            )[j] by {
                assert(rows_view(sb)[j] == sb[j]@);
            }
            let target = capped(longer, limit as int);
            assert(longer.len() == shorter.len() + 1);
            assert(sb.len() == capped(shorter, limit as int).len());
            assert forall|j: int| 0 <= j < scrollback@.len() implies (#[trigger] scrollback@[j])@
                == target[j] by {
                if sb.len() + 1 > limit {
                    if j + 1 < sb.len() {
                        assert(rows_view(sb)[j + 1] == sb[j + 1]@);
                    }
                } else {
                    if j < sb.len() {
                        assert(rows_view(sb)[j] == sb[j]@);
                    }
                }
            }
            assert(rows_view(scrollback@) =~~= target);
        }
        i += 1;
    }
}

/// Moves the rows `top..=bottom` down by `count`; the rows that open at the
/// top of the region hold `cell`.
pub fn scroll_rows_down(
    cells: &mut Vec<Vec<Cell>>,
    top: usize,
    bottom: usize,
    count: usize,
    cols: usize,
    cell: Cell,
)
    requires
        rectangular(rows_view(old(cells)@), cols as int, old(cells).len() as int),
        top <= bottom < old(cells).len(),
        count <= bottom - top + 1,
    ensures
        final(cells).len() == old(cells).len(),
        rows_view(final(cells)@) == scrolled_down(
            rows_view(old(cells)@),
            top as int,
            bottom as int,
            count as int,
            cell,
        ),
{
    let ghost before = rows_view(cells@);
    let mut i: usize = 0;
    assert(rows_view(cells@) =~~= scrolled_down(before, top as int, bottom as int, 0, cell));
    while i < count
        invariant
            i <= count,
            count <= bottom - top + 1,
            top <= bottom < cells.len(),
            cells.len() == before.len(),
            rectangular(before, cols as int, before.len() as int),
            rows_view(cells@) == scrolled_down(before, top as int, bottom as int, i as int, cell),
        decreases count - i,
    {
        let ghost cur = cells@;
        let _row = cells.remove(bottom);
        cells.insert(top, make_row(cols, cell));
        proof {
            assert forall|r: int| 0 <= r < cells.len() implies (#[trigger] cells@[r])@
                == scrolled_down(before, top as int, bottom as int, i + 1, cell)[r] by {
                if r < top {
                    assert(rows_view(cur)[r] == cur[r]@);
                } else if top < r <= bottom {
                    assert(rows_view(cur)[r - 1] == cur[r - 1]@);
                } else if r > bottom {
                    assert(rows_view(cur)[r] == cur[r]@);
                }
            }
            assert(rows_view(cells@) =~~= scrolled_down(
                before,
                top as int,
                bottom as int,
                i + 1,
                cell,
            ));
        }
        i += 1;
    }
}

/// A buffer of `rows` × `cols` cells that holds the top-left part of `cells`
/// and blank cells elsewhere.
pub fn resized_cells(cells: &Vec<Vec<Cell>>, old_cols: usize, cols: usize, rows: usize) -> (out:
    Vec<Vec<Cell>>)
    requires
        rectangular(rows_view(cells@), old_cols as int, cells.len() as int),
    ensures
        out.len() == rows,
        rows_view(out@) == Seq::new(
            rows as nat,
            |r: int|
                Seq::new(
                    cols as nat,
                    |c: int|
                        if r < cells.len() && c < old_cols {
                            rows_view(cells@)[r][c]
                        } else {
                            Cell::blank()
                        },
                ),
        ),
{
    let ghost source = rows_view(cells@);
    let ghost target = Seq::new(
        rows as nat,
        |r: int|
            Seq::new(
                cols as nat,
                |c: int|
                    if r < cells.len() && c < old_cols {
                        source[r][c]
                    } else {
                        Cell::blank()
                    },
            ),
    );
    let copy_cols = if old_cols < cols {
        old_cols
    } else {
        cols
    };
    let mut out: Vec<Vec<Cell>> = Vec::new();
    let mut r: usize = 0;
    while r < rows
        invariant
            r <= rows,
            out.len() == r,
            copy_cols <= cols,
            copy_cols <= old_cols,
            copy_cols == old_cols || copy_cols == cols,
            source == rows_view(cells@),
            rectangular(source, old_cols as int, cells.len() as int),
            target.len() == rows,
            forall|i: int|
                0 <= i < rows ==> #[trigger] target[i] == Seq::new(
                    cols as nat,
                    |c: int|
                        if i < cells.len() && c < old_cols {
                            source[i][c]
                        } else {
                            Cell::blank()
                        },
                ),
            forall|i: int| 0 <= i < r ==> (#[trigger] out@[i])@ == target[i],
        decreases rows - r,
    {
        let mut row = make_row(cols, Cell::default());
        if r < cells.len() {
            assert(source[r as int] == cells@[r as int]@);
            let mut c: usize = 0;
            while c < copy_cols
                invariant
                    c <= copy_cols,
                    copy_cols <= cols,
                    copy_cols <= old_cols,
                    r < cells.len(),
                    cells@[r as int]@.len() == old_cols,
                    row@.len() == cols,
                    forall|j: int|
                        0 <= j < cols ==> #[trigger] row@[j] == if j < c {
                            cells@[r as int]@[j]
                        } else {
                            Cell::blank()
                        },
                decreases copy_cols - c,
            {
                row[c] = cells[r][c];
                c += 1;
            }
        }
        assert(row@ =~= target[r as int]);
        out.push(row);
        r += 1;
    }
    assert(rows_view(out@) =~~= target);
    out
}

/// Whether `c` is white space in the sense of Unicode's `White_Space`
/// property.
pub open spec fn is_white_space(c: char) -> bool {
    let u = c as u32;
    ||| 0x09 <= u <= 0x0D
    ||| u == 0x20
    ||| u == 0x85
    ||| u == 0xA0
    ||| u == 0x1680
    ||| 0x2000 <= u <= 0x200A
    ||| u == 0x2028
    ||| u == 0x2029
    ||| u == 0x202F
    ||| u == 0x205F
    ||| u == 0x3000
}

/// Whether `c` is white space in the sense of Unicode's `White_Space`
/// property.
pub fn white_space(c: char) -> (b: bool)
    ensures
        b == is_white_space(c),
{
    let u = c as u32;
    (0x09 <= u && u <= 0x0D) || u == 0x20 || u == 0x85 || u == 0xA0 || u == 0x1680 || (0x2000
        <= u && u <= 0x200A) || u == 0x2028 || u == 0x2029 || u == 0x202F || u == 0x205F || u
        == 0x3000
}

/// The character that a cell contributes to copied text: NUL reads as a
/// space.
pub open spec fn shown(cell: Cell) -> char {
    if cell.ch == '\0' {
        ' '
    } else {
        cell.ch
    }
}

/// The characters of the cells `from..to` of `row`.
pub open spec fn cell_chars(row: Seq<Cell>, from: int, to: int) -> Seq<char> {
    Seq::new(
        if from < to {
            (to - from) as nat
        } else {
            0
        },
        |i: int| shown(row[from + i]),
    )
}

/// `text` without the white space at its end.
pub open spec fn trimmed_end(text: Seq<char>) -> Seq<char>
    decreases text.len(),
{
    if text.len() > 0 && is_white_space(text.last()) {
        trimmed_end(text.drop_last())
    } else {
        text
    }
}

/// `String::from_iter` over the characters of `chars`: the string that
/// holds exactly those characters, in order.
#[verifier::external_body]
pub(crate) fn string_from_chars(chars: &Vec<char>) -> (s: String)
    ensures
        s@ == chars@,
{
    String::from_iter(chars.iter())
}

/// Removing the white space at the end of a text that ends in none, or is
/// empty, changes nothing.
pub proof fn lemma_trimmed_end_step(text: Seq<char>)
    ensures
        text.len() > 0 && is_white_space(text.last()) ==> trimmed_end(text) == trimmed_end(
            text.drop_last(),
        ),
        text.len() == 0 || !is_white_space(text.last()) ==> trimmed_end(text) == text,
{
}

impl TerminalGrid {
    /// The invariant of the grid, see [`GridModel::wf`].
    pub open spec fn wf(&self) -> bool {
        self@.wf()
    }

    /// An empty grid of `cols` × `rows` cells with the cursor at the top
    /// left, the whole screen as scroll region and an empty scrollback.
    pub fn new(cols: usize, rows: usize) -> (grid: Self)
        requires
            cols >= 1,
            rows >= 1,
        ensures
            grid@ == GridModel::fresh(cols as int, rows as int),
            grid.wf(),
    {
        let mut cells: Vec<Vec<Cell>> = Vec::new();
        let mut r: usize = 0;
        while r < rows
            invariant
                r <= rows,
                cells.len() == r,
                forall|i: int|
                    0 <= i < r ==> (#[trigger] cells@[i])@ == uniform_row(cols as int, Cell::blank()),
            decreases rows - r,
        {
            cells.push(make_row(cols, Cell::default()));
            r += 1;
        }
        let grid = TerminalGrid {
            cols,
            rows,
            cells,
            cursor_col: 0,
            cursor_row: 0,
            scroll_top: 0,
            scroll_bottom: rows - 1,
            scrollback: Vec::new(),
            scrollback_limit: DEFAULT_SCROLLBACK_LIMIT,
            current_attrs: CellAttributes::default(),
            title: String::new(),
            pending_wrap: false,
            generation: 0,
            bracketed_paste: false,
            cursor_visible: true,
            reverse_cursor: None,
        };
        proof {
            let m = GridModel::fresh(cols as int, rows as int);
            assert(grid@.cells =~~= m.cells);
            assert(grid@.scrollback =~~= m.scrollback);
        }
        grid
    }

    /// Gives the grid the size `cols` × `rows`. The cells that are in both
    /// the old and the new rectangle stay; the scroll region becomes the
    /// whole screen; the cursor moves into the new rectangle; the scrollback
    /// is left as it is.
    pub fn resize(&mut self, cols: usize, rows: usize)
        requires
            old(self).wf(),
            cols >= 1,
            rows >= 1,
        ensures
            final(self)@ == old(self)@.resize(cols as int, rows as int),
            final(self).wf(),
    {
        if cols == self.cols && rows == self.rows {
            return ;
        }
        let new_cells = resized_cells(&self.cells, self.cols, cols, rows);
        self.generation = self.generation.wrapping_add(1);
        self.cells = new_cells;
        self.cols = cols;
        self.rows = rows;
        if self.cursor_col > cols - 1 {
            self.cursor_col = cols - 1;
        }
        if self.cursor_row > rows - 1 {
            self.cursor_row = rows - 1;
        }
        self.scroll_top = 0;
        self.scroll_bottom = rows - 1;
        self.pending_wrap = false;
        proof {
            let m = old(self)@.resize(cols as int, rows as int);
            assert(self@.cells =~~= m.cells);
        }
    }

    /// Writes `ch` with the current attributes at (`col`, `row`); a position
    /// outside the grid is ignored.
    pub fn set_cell(&mut self, col: usize, row: usize, ch: char)
        requires
            old(self).wf(),
        ensures
            final(self)@ == old(self)@.set_cell(col as int, row as int, ch),
            final(self).wf(),
    {
        if row < self.rows && col < self.cols {
            assert(rows_view(self.cells@)[row as int] == self.cells@[row as int]@);
            fill_cells(&mut self.cells, row, col, col + 1, Cell::new(ch, self.current_attrs));
            self.generation = self.generation.wrapping_add(1);
        }
    }

    /// Blanks the row `row`; a row outside the grid is ignored.
    pub fn clear_line(&mut self, row: usize)
        requires
            old(self).wf(),
        ensures
            final(self)@ == old(self)@.clear_line(row as int),
            final(self).wf(),
    {
        if row < self.rows {
            fill_rows(&mut self.cells, row, row + 1, Cell::default());
            self.generation = self.generation.wrapping_add(1);
        }
    }

    /// Blanks the columns `col_start..col_end` of the row `row`, as far as
    /// they lie inside the grid.
    pub fn clear_line_range(&mut self, row: usize, col_start: usize, col_end: usize)
        requires
            old(self).wf(),
        ensures
            final(self)@ == old(self)@.clear_line_range(
                row as int,
                col_start as int,
                col_end as int,
            ),
            final(self).wf(),
    {
        let end = if col_end < self.cols {
            col_end
        } else {
            self.cols
        };
        if row < self.rows && col_start < end {
            assert(rows_view(self.cells@)[row as int] == self.cells@[row as int]@);
            fill_cells(&mut self.cells, row, col_start, end, Cell::default());
            self.generation = self.generation.wrapping_add(1);
        }
    }

    /// Blanks every row and moves the cursor to the top left.
    pub fn clear_screen(&mut self)
        requires
            old(self).wf(),
        ensures
            final(self)@ == old(self)@.clear_screen(),
            final(self).wf(),
    {
        fill_rows(&mut self.cells, 0, self.rows, Cell::default());
        self.cursor_col = 0;
        self.cursor_row = 0;
        self.pending_wrap = false;
        self.generation = self.generation.wrapping_add(1);
    }

    /// Scrolls the scroll region up by `count` rows, at most by its height.
    /// The rows that leave at the top go to the scrollback, which keeps its
    /// newest `scrollback_limit` rows; the rows that open at the bottom are
    /// empty, on the current background.
    pub fn scroll_up_region(&mut self, count: usize)
        requires
            old(self).wf(),
        ensures
            final(self)@ == old(self)@.scroll_up_region(count as int),
            final(self).wf(),
    {
        let height = self.scroll_bottom - self.scroll_top + 1;
        let n = if count < height {
            count
        } else {
            height
        };
        if n == 0 {
            return ;
        }
        scroll_rows_up(
            &mut self.cells,
            &mut self.scrollback,
            self.scrollback_limit,
            self.scroll_top,
            self.scroll_bottom,
            n,
            self.cols,
            Cell::empty_on(self.current_attrs.bg),
        );
        self.generation = self.generation.wrapping_add(1);
    }

    /// Scrolls the scroll region down by `count` rows, at most by its height.
    /// The rows that leave at the bottom are lost; the rows that open at the
    /// top are empty, on the current background.
    pub fn scroll_down_region(&mut self, count: usize)
        requires
            old(self).wf(),
        ensures
            final(self)@ == old(self)@.scroll_down_region(count as int),
            final(self).wf(),
    {
        let height = self.scroll_bottom - self.scroll_top + 1;
        let n = if count < height {
            count
        } else {
            height
        };
        if n == 0 {
            return ;
        }
        scroll_rows_down(
            &mut self.cells,
            self.scroll_top,
            self.scroll_bottom,
            n,
            self.cols,
            Cell::empty_on(self.current_attrs.bg),
        );
        self.generation = self.generation.wrapping_add(1);
    }

    /// Line feed: on the last row of the scroll region the region scrolls up
    /// by one; elsewhere the cursor moves down, unless it is on the last row.
    pub fn newline(&mut self)
        requires
            old(self).wf(),
        ensures
            final(self)@ == old(self)@.newline(),
            final(self).wf(),
    {
        self.pending_wrap = false;
        if self.cursor_row == self.scroll_bottom {
            self.scroll_up_region(1);
        } else if self.cursor_row < self.rows - 1 {
            self.cursor_row += 1;
        }
    }

    /// Moves the cursor to the first column.
    pub fn carriage_return(&mut self)
        requires
            old(self).wf(),
        ensures
            final(self)@ == old(self)@.carriage_return(),
            final(self).wf(),
    {
        self.cursor_col = 0;
        self.pending_wrap = false;
    }

    /// Moves the cursor one column to the right, see
    /// [`TerminalGrid::advance_cursor_by_width`].
    pub fn advance_cursor(&mut self)
        requires
            old(self).wf(),
        ensures
            final(self)@ == old(self)@.advance_cursor_by_width(1),
            final(self).wf(),
    {
        self.advance_cursor_by_width(1);
    }

    /// Moves the cursor `width` columns to the right. Where that would leave
    /// the grid the cursor stays and the wrap latch is set instead.
    pub fn advance_cursor_by_width(&mut self, width: usize)
        requires
            old(self).wf(),
        ensures
            final(self)@ == old(self)@.advance_cursor_by_width(width as int),
            final(self).wf(),
    {
        if width < self.cols - self.cursor_col {
            self.cursor_col = self.cursor_col + width;
            self.pending_wrap = false;
        } else {
            self.pending_wrap = true;
        }
    }

    /// Number of rows that an absolute row index can name: the scrollback
    /// and the screen.
    pub fn total_rows(&self) -> (n: usize)
        requires
            self.scrollback.len() + self.rows <= usize::MAX,
        ensures
            n == self@.total_rows(),
    {
        self.scrollback.len() + self.rows
    }
}

/// The count of reverse-video cells grows with the part of the row that is
/// counted.
pub proof fn lemma_reverse_count_grows(row: Seq<Cell>, shorter: int, longer: int)
    requires
        shorter <= longer,
    ensures
        0 <= reverse_count(row, shorter) <= reverse_count(row, longer),
    decreases longer - shorter,
{
    if shorter < longer {
        lemma_reverse_count_grows(row, shorter, longer - 1);
    } else {
        lemma_reverse_count_nonnegative(row, shorter);
    }
}

/// A count is never negative.
pub proof fn lemma_reverse_count_nonnegative(row: Seq<Cell>, upto: int)
    ensures
        0 <= reverse_count(row, upto),
    decreases upto,
{
    if upto > 0 {
        lemma_reverse_count_nonnegative(row, upto - 1);
    }
}

/// Counts the reverse-video cells of `row` up to four and finds the leftmost.
fn scan_row(row: &Vec<Cell>) -> (found: (usize, usize))
    ensures
        found.0 <= 3 ==> found.0 == reverse_count(row@, row@.len() as int),
        found.0 > 3 ==> reverse_count(row@, row@.len() as int) > 3,
        found.0 >= 1 ==> is_first_reverse(row@, found.1 as int),
{
    let mut count: usize = 0;
    let mut first: usize = 0;
    let mut col: usize = 0;
    while col < row.len() && count <= 3
        invariant
            col <= row.len(),
            count <= 4,
            count == reverse_count(row@, col as int),
            count >= 1 ==> first < col && is_first_reverse(row@, first as int),
            count == 0 ==> forall|c: int| 0 <= c < col ==> !(#[trigger] row@[c]).attrs.reverse,
        decreases row.len() - col,
    {
        if row[col].attrs.reverse {
            if count == 0 {
                first = col;
            }
            count += 1;
        }
        col += 1;
    }
    proof {
        lemma_reverse_count_grows(row@, col as int, row@.len() as int);
    }
    (count, first)
}

/// Finds the cursor that an application drew in reverse video.
pub fn find_drawn_cursor(cells: &Vec<Vec<Cell>>) -> (found: Option<(usize, usize)>)
    ensures
        is_drawn_cursor(
            rows_view(cells@),
            match found {
                Some((r, c)) => Some((r as int, c as int)),
                None => None,
            },
        ),
{
    let mut row: usize = cells.len();
    while row > 0
        invariant
            row <= cells.len(),
            forall|r: int| row <= r < cells.len() ==> !has_drawn_cursor(#[trigger] rows_view(cells@)[r]),
        decreases row,
    {
        row -= 1;
        let (count, first) = scan_row(&cells[row]);
        assert(rows_view(cells@)[row as int] == cells@[row as int]@);
        if count >= 1 && count <= 3 {
            return Some((row, first));
        }
    }
    None
}

/// The characters of the cells `from..to` of `row`, NUL read as a space,
/// without the white space at the end.
pub fn row_text(row: &Vec<Cell>, from: usize, to: usize) -> (text: Vec<char>)
    requires
        to <= row.len(),
    ensures
        text@ == trimmed_end(cell_chars(row@, from as int, to as int)),
{
    let ghost whole = cell_chars(row@, from as int, to as int);
    let mut text: Vec<char> = Vec::new();
    let mut col: usize = from;
    while col < to
        invariant
            from <= col,
            col <= to || col == from,
            to <= row.len(),
            text@ == cell_chars(row@, from as int, col as int),
        decreases to - col,
    {
        let ch = row[col].ch;
        text.push(
            if ch == '\0' {
                ' '
            } else {
                ch
            },
        );
        assert(text@ =~= cell_chars(row@, from as int, col + 1));
        col += 1;
    }
    assert(text@ =~= whole);
    while text.len() > 0 && white_space(text[text.len() - 1])
        invariant
            trimmed_end(text@) == trimmed_end(whole),
        decreases text.len(),
    {
        proof {
            lemma_trimmed_end_step(text@);
        }
        text.pop();
    }
    proof {
        lemma_trimmed_end_step(text@);
    }
    text
}

impl TerminalGrid {
    /// Looks for a cursor that an application drew itself: from the bottom
    /// row upward, the first row that holds between one and three
    /// reverse-video cells, and the leftmost of them.
    pub fn detect_reverse_cursor(&mut self)
        requires
            old(self).wf(),
        ensures
            final(self)@ == old(self)@.with_reverse_cursor(final(self)@.reverse_cursor),
            is_drawn_cursor(old(self)@.cells, final(self)@.reverse_cursor),
            final(self).wf(),
    {
        self.reverse_cursor = find_drawn_cursor(&self.cells);
    }

    /// The text between `start` and `end`, both `(absolute row, column)` and
    /// both included: of each row from `start.0` to `end.0` that exists the
    /// cells from the start column (first row) to the end column (last row),
    /// NUL read as a space, without the white space at the end; the lines
    /// joined by line feeds.
    pub fn extract_selection(&self, start: (usize, usize), end: (usize, usize)) -> (text: String)
        requires
            self.wf(),
            self.scrollback.len() + self.rows <= usize::MAX,
        ensures
            text@ == self@.selection_text(
                (start.0 as int, start.1 as int),
                (end.0 as int, end.1 as int),
            ),
    {
        let ghost s = (start.0 as int, start.1 as int);
        let ghost e = (end.0 as int, end.1 as int);
        let slen = self.scrollback.len();
        let total = slen + self.rows;
        let stop = if end.0 < total {
            end.0 + 1
        } else {
            total
        };
        let mut text: Vec<char> = Vec::new();
        let mut abs_row: usize = start.0;
        while abs_row < stop
            invariant
                start.0 <= abs_row,
                abs_row <= stop || abs_row == start.0,
                stop <= total,
                total == slen + self.rows,
                slen == self.scrollback.len(),
                self.wf(),
                s == (start.0 as int, start.1 as int),
                e == (end.0 as int, end.1 as int),
                text@ == self@.selection_upto(s, e, abs_row as int),
            decreases stop - abs_row,
        {
            let row: &Vec<Cell> = if abs_row < slen {
                &self.scrollback[abs_row]
            } else {
                &self.cells[abs_row - slen]
            };
            assert(row@ == self@.abs_row(abs_row as int));
            let from = if abs_row == start.0 {
                start.1
            } else {
                0
            };
            let to = if abs_row == end.0 && end.1 < row.len() {
                end.1 + 1
            } else {
                row.len()
            };
            let line = row_text(row, from, to);
            assert(line@ == self@.line_text(abs_row as int, s, e));
            if abs_row > start.0 {
                text.push('\n');
            }
            let ghost head = text@;
            let mut i: usize = 0;
            while i < line.len()
                invariant
                    i <= line.len(),
                    text@ == head + line@.subrange(0, i as int),
                decreases line.len() - i,
            {
                text.push(line[i]);
                assert(text@ =~= head + line@.subrange(0, i + 1));
                i += 1;
            }
            assert(text@ =~= head + line@);
            assert(text@ =~= self@.selection_upto(s, e, abs_row + 1));
            abs_row += 1;
        }
        string_from_chars(&text)
    }
}

} // verus!
