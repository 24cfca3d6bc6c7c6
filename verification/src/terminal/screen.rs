//! The editing operations of the screen that control sequences ask for:
//! cursor placement, erasing, inserting and deleting cells and lines, the
//! scroll region and the alternate screen.
//!
//! Each operation is one visible mutation at most: it advances the
//! generation once where it writes cells and leaves it alone where it only
//! moves the cursor.

use vstd::prelude::*;
use crate::terminal::cell::Cell;
use crate::terminal::grid::{
    fill_cells, fill_rows, filled, min_int, rows_filled, rows_view, scroll_rows_down,
    scroll_rows_up, scrolled_down, scrolled_up, GridModel, TerminalGrid,
};

verus! {

/// The larger of two integers.
pub open spec fn max_int(a: int, b: int) -> int {
    if a >= b {
        a
    } else {
        b
    }
}

/// `v` held to the range `lo..=hi`.
pub open spec fn clamped(v: int, lo: int, hi: int) -> int {
    max_int(lo, min_int(v, hi))
}

/// `row` without the `n` cells from `at` on: the cells behind them move
/// left, and `n` copies of `cell` fill the end of the row.
pub open spec fn row_deleted(row: Seq<Cell>, at: int, n: int, cell: Cell) -> Seq<Cell> {
    Seq::new(
        row.len(),
        |c: int|
            if c < at {
                row[c]
            } else if c + n < row.len() {
                row[c + n]
            } else {
                cell
            },
    )
}

/// `row` with `n` copies of `cell` put in at `at`: the cells from there on
/// move right, and those that leave the row are lost.
pub open spec fn row_inserted(row: Seq<Cell>, at: int, n: int, cell: Cell) -> Seq<Cell> {
    Seq::new(
        row.len(),
        |c: int|
            if c < at {
                row[c]
            } else if c < at + n {
                cell
            } else {
                row[c - n]
            },
    )
}

impl GridModel {
    /// The cursor at (`row`, `col`), held inside the grid; the wrap latch
    /// cleared.
    pub open spec fn moved_to(self, row: int, col: int) -> GridModel {
        GridModel {
            cursor_row: clamped(row, 0, self.rows - 1),
            cursor_col: clamped(col, 0, self.cols - 1),
            pending_wrap: false,
            ..self
        }
    }

    /// Erase in display. Mode 0 blanks from the cursor to the end of the
    /// screen, 1 from the start of the screen to the cursor, 2 and 3 the
    /// whole screen; any other mode changes nothing.
    pub open spec fn erase_display(self, mode: int) -> GridModel {
        let (row, col) = (self.cursor_row, self.cursor_col);
        if mode == 0 {
            GridModel {
                cells: rows_filled(
                    filled(self.cells, row, col, self.cols, Cell::blank()),
                    row + 1,
                    self.rows,
                    Cell::blank(),
                ),
                ..self.stamped(self.generation)
            }
        } else if mode == 1 {
            GridModel {
                cells: filled(
                    rows_filled(self.cells, 0, row, Cell::blank()),
                    row,
                    0,
                    col + 1,
                    Cell::blank(),
                ),
                ..self.stamped(self.generation)
            }
        } else if mode == 2 || mode == 3 {
            GridModel {
                cells: rows_filled(self.cells, 0, self.rows, Cell::blank()),
                ..self.stamped(self.generation)
            }
        } else {
            self
        }
    }

    /// Erase in line. Mode 0 blanks from the cursor to the end of its row,
    /// 1 from the start of the row to the cursor, 2 the whole row; any other
    /// mode changes nothing.
    pub open spec fn erase_line(self, mode: int) -> GridModel {
        if mode == 0 {
            self.clear_line_range(self.cursor_row, self.cursor_col, self.cols)
        } else if mode == 1 {
            self.clear_line_range(self.cursor_row, 0, self.cursor_col + 1)
        } else if mode == 2 {
            self.clear_line(self.cursor_row)
        } else {
            self
        }
    }

    /// Whether the cursor is on a row of the scroll region.
    pub open spec fn cursor_in_region(self) -> bool {
        self.scroll_top <= self.cursor_row <= self.scroll_bottom
    }

    /// How many lines an insertion or deletion of `n` lines at the cursor
    /// touches: at most those from the cursor to the end of the region.
    pub open spec fn line_count(self, n: int) -> int {
        min_int(n, self.scroll_bottom - self.cursor_row + 1)
    }

    /// Inserts `n` empty lines at the cursor row. The rows from there to the
    /// end of the scroll region move down; those that leave the region are
    /// lost. Outside the region, or with `n < 1`, nothing happens.
    pub open spec fn insert_lines(self, n: int) -> GridModel {
        if self.cursor_in_region() && n >= 1 {
            GridModel {
                cells: scrolled_down(
                    self.cells,
                    self.cursor_row,
                    self.scroll_bottom,
                    self.line_count(n),
                    self.scroll_blank(),
                ),
                ..self.stamped(self.generation)
            }
        } else {
            self
        }
    }

    /// Deletes `n` lines at the cursor row. The rows below them, up to the
    /// end of the scroll region, move up, and empty rows fill the end of
    /// the region; nothing goes to the scrollback. Outside the region, or
    /// with `n < 1`, nothing happens.
    pub open spec fn delete_lines(self, n: int) -> GridModel {
        if self.cursor_in_region() && n >= 1 {
            GridModel {
                cells: scrolled_up(
                    self.cells,
                    self.cursor_row,
                    self.scroll_bottom,
                    self.line_count(n),
                    self.scroll_blank(),
                ),
                ..self.stamped(self.generation)
            }
        } else {
            self
        }
    }

    /// Deletes `n` cells at the cursor; the rest of the row moves left and
    /// blank cells fill its end. With `n < 1` nothing happens.
    pub open spec fn delete_chars(self, n: int) -> GridModel {
        if n >= 1 {
            GridModel {
                cells: self.cells.update(
                    self.cursor_row,
                    row_deleted(
                        self.cells[self.cursor_row],
                        self.cursor_col,
                        min_int(n, self.cols - self.cursor_col),
                        Cell::blank(),
                    ),
                ),
                ..self.stamped(self.generation)
            }
        } else {
            self
        }
    }

    /// Inserts `n` blank cells at the cursor; the rest of the row moves
    /// right and what leaves the row is lost. With `n < 1` nothing happens.
    pub open spec fn insert_chars(self, n: int) -> GridModel {
        if n >= 1 {
            GridModel {
                cells: self.cells.update(
                    self.cursor_row,
                    row_inserted(
                        self.cells[self.cursor_row],
                        self.cursor_col,
                        min_int(n, self.cols - self.cursor_col),
                        Cell::blank(),
                    ),
                ),
                ..self.stamped(self.generation)
            }
        } else {
            self
        }
    }

    /// Blanks `n` cells from the cursor on, without moving the others.
    pub open spec fn erase_chars(self, n: int) -> GridModel {
        self.clear_line_range(self.cursor_row, self.cursor_col, self.cursor_col + n)
    }

    /// Sets the scroll region to the rows `top..=bottom`, counted from 1 and
    /// held inside the grid, and sends the cursor home: to the first row of
    /// the region in origin mode, else to the first row of the screen, in
    /// the first column, with the wrap latch cleared. A `bottom` of 0
    /// stands for the last row. A region whose first row lies below its
    /// last is refused: the region stays as it is, and the cursor goes
    /// home all the same.
    pub open spec fn set_scroll_region(self, top: int, bottom: int, origin_mode: bool) -> GridModel {
        let first = min_int(max_int(top, 1) - 1, self.rows - 1);
        let last = if bottom <= 0 {
            self.rows - 1
        } else {
            min_int(bottom - 1, self.rows - 1)
        };
        let region = if first <= last {
            (first, last)
        } else {
            (self.scroll_top, self.scroll_bottom)
        };
        GridModel {
            scroll_top: region.0,
            scroll_bottom: region.1,
            cursor_row: if origin_mode {
                region.0
            } else {
                0
            },
            cursor_col: 0,
            pending_wrap: false,
            ..self
        }
    }

    /// The screen as it is on entering or leaving the alternate screen:
    /// blank, the scroll region the whole screen, the cursor at
    /// (`row`, `col`) held inside the grid.
    pub open spec fn wiped(self, row: int, col: int) -> GridModel {
        GridModel {
            cells: rows_filled(self.cells, 0, self.rows, Cell::blank()),
            scroll_top: 0,
            scroll_bottom: self.rows - 1,
            ..self.moved_to(row, col).stamped(self.generation)
        }
    }

    /// Backspace: one column to the left, if there is one.
    pub open spec fn backspace(self) -> GridModel {
        GridModel {
            cursor_col: max_int(self.cursor_col - 1, 0),
            pending_wrap: false,
            ..self
        }
    }

    /// Horizontal tab: to the next column that is a multiple of 8, at most
    /// to the last column.
    pub open spec fn tab(self) -> GridModel {
        GridModel {
            cursor_col: min_int((self.cursor_col / 8 + 1) * 8, self.cols - 1),
            pending_wrap: false,
            ..self
        }
    }

    /// Reverse index: on the first row of the scroll region the region
    /// scrolls down by one; elsewhere the cursor moves up, unless it is on
    /// the first row of the screen.
    pub open spec fn reverse_index(self) -> GridModel {
        if self.cursor_row == self.scroll_top {
            self.scroll_down_region(1)
        } else if self.cursor_row > 0 {
            GridModel { cursor_row: self.cursor_row - 1, ..self }
        } else {
            self
        }
    }
}

/// Moves the cells of `row` from `at + n` on to the left by `n` and fills
/// the end of the row with `cell`.
pub fn delete_cells(cells: &mut Vec<Vec<Cell>>, row: usize, at: usize, n: usize, cell: Cell)
    requires
        row < old(cells).len(),
        at + n <= old(cells)[row as int].len(),
    ensures
        final(cells).len() == old(cells).len(),
        rows_view(final(cells)@) == rows_view(old(cells)@).update(
            row as int,
            row_deleted(rows_view(old(cells)@)[row as int], at as int, n as int, cell),
        ),
{
    let ghost before = rows_view(cells@);
    let len = cells[row].len();
    let keep = len - n;
    let mut c: usize = at;
    while c < keep
        invariant
            at <= c <= keep,
            keep + n == len,
            row < cells.len(),
            cells.len() == before.len(),
            cells@[row as int]@.len() == len,
            before[row as int].len() == len,
            forall|r: int| 0 <= r < cells.len() && r != row ==> (#[trigger] cells@[r])@ == before[r],
            forall|i: int|
                0 <= i < len ==> #[trigger] cells@[row as int]@[i] == if at <= i < c {
                    before[row as int][i + n]
                } else {
                    before[row as int][i]
                },
        decreases keep - c,
    {
        let moved = cells[row][c + n];
        cells[row][c] = moved;
        c += 1;
    }
    while c < len
        invariant
            keep <= c <= len,
            at <= keep,
            keep + n == len,
            row < cells.len(),
            cells.len() == before.len(),
            cells@[row as int]@.len() == len,
            before[row as int].len() == len,
            forall|r: int| 0 <= r < cells.len() && r != row ==> (#[trigger] cells@[r])@ == before[r],
            forall|i: int|
                0 <= i < len ==> #[trigger] cells@[row as int]@[i] == if at <= i < keep {
                    before[row as int][i + n]
                } else if keep <= i < c {
                    cell
                } else {
                    before[row as int][i]
                },
        decreases len - c,
    {
        cells[row][c] = cell;
        c += 1;
    }
    assert(rows_view(cells@) =~~= before.update(
        row as int,
        row_deleted(before[row as int], at as int, n as int, cell),
    ));
}

/// Moves the cells of `row` from `at` on to the right by `n` and puts `n`
/// copies of `cell` in at `at`.
pub fn insert_cells(cells: &mut Vec<Vec<Cell>>, row: usize, at: usize, n: usize, cell: Cell)
    requires
        row < old(cells).len(),
        at + n <= old(cells)[row as int].len(),
    ensures
        final(cells).len() == old(cells).len(),
        rows_view(final(cells)@) == rows_view(old(cells)@).update(
            row as int,
            row_inserted(rows_view(old(cells)@)[row as int], at as int, n as int, cell),
        ),
{
    let ghost before = rows_view(cells@);
    let len = cells[row].len();
    let mut c: usize = len;
    while c > at + n
        invariant
            at + n <= c <= len,
            row < cells.len(),
            cells.len() == before.len(),
            cells@[row as int]@.len() == len,
            before[row as int].len() == len,
            forall|r: int| 0 <= r < cells.len() && r != row ==> (#[trigger] cells@[r])@ == before[r],
            forall|i: int|
                0 <= i < len ==> #[trigger] cells@[row as int]@[i] == if c <= i {
                    before[row as int][i - n]
                } else {
                    before[row as int][i]
                },
        decreases c,
    {
        c -= 1;
        let moved = cells[row][c - n];
        cells[row][c] = moved;
    }
    let mut k: usize = at;
    while k < at + n
        invariant
            at <= k <= at + n,
            at + n <= len,
            row < cells.len(),
            cells.len() == before.len(),
            cells@[row as int]@.len() == len,
            before[row as int].len() == len,
            forall|r: int| 0 <= r < cells.len() && r != row ==> (#[trigger] cells@[r])@ == before[r],
            forall|i: int|
                0 <= i < len ==> #[trigger] cells@[row as int]@[i] == if at + n <= i {
                    before[row as int][i - n]
                } else if at <= i < k {
                    cell
                } else {
                    before[row as int][i]
                },
        decreases at + n - k,
    {
        cells[row][k] = cell;
        k += 1;
    }
    assert(rows_view(cells@) =~~= before.update(
        row as int,
        row_inserted(before[row as int], at as int, n as int, cell),
    ));
}

impl TerminalGrid {
    /// Puts the cursor at (`row`, `col`), held inside the grid, and clears
    /// the wrap latch.
    pub fn move_cursor_to(&mut self, row: usize, col: usize)
        requires
            old(self).wf(),
        ensures
            final(self)@ == old(self)@.moved_to(row as int, col as int),
            final(self).wf(),
    {
        self.cursor_row = if row < self.rows {
            row
        } else {
            self.rows - 1
        };
        self.cursor_col = if col < self.cols {
            col
        } else {
            self.cols - 1
        };
        self.pending_wrap = false;
    }

    /// Erase in display, see [`GridModel::erase_display`].
    pub fn erase_display(&mut self, mode: u16)
        requires
            old(self).wf(),
        ensures
            final(self)@ == old(self)@.erase_display(mode as int),
            final(self).wf(),
    {
        let row = self.cursor_row;
        let col = self.cursor_col;
        assert(rows_view(self.cells@)[row as int] == self.cells@[row as int]@);
        if mode == 0 {
            fill_cells(&mut self.cells, row, col, self.cols, Cell::default());
            fill_rows(&mut self.cells, row + 1, self.rows, Cell::default());
            self.generation = self.generation.wrapping_add(1);
        } else if mode == 1 {
            fill_rows(&mut self.cells, 0, row, Cell::default());
            assert(rows_view(self.cells@)[row as int] == self.cells@[row as int]@);
            fill_cells(&mut self.cells, row, 0, col + 1, Cell::default());
            self.generation = self.generation.wrapping_add(1);
        } else if mode == 2 || mode == 3 {
            fill_rows(&mut self.cells, 0, self.rows, Cell::default());
            self.generation = self.generation.wrapping_add(1);
        }
    }

    /// Erase in line, see [`GridModel::erase_line`].
    pub fn erase_line(&mut self, mode: u16)
        requires
            old(self).wf(),
        ensures
            final(self)@ == old(self)@.erase_line(mode as int),
            final(self).wf(),
    {
        if mode == 0 {
            self.clear_line_range(self.cursor_row, self.cursor_col, self.cols);
        } else if mode == 1 {
            self.clear_line_range(self.cursor_row, 0, self.cursor_col + 1);
        } else if mode == 2 {
            self.clear_line(self.cursor_row);
        }
    }

    /// Inserts `n` empty lines at the cursor row, see
    /// [`GridModel::insert_lines`].
    pub fn insert_lines(&mut self, n: usize)
        requires
            old(self).wf(),
        ensures
            final(self)@ == old(self)@.insert_lines(n as int),
            final(self).wf(),
    {
        if self.scroll_top <= self.cursor_row && self.cursor_row <= self.scroll_bottom && n >= 1 {
            let room = self.scroll_bottom - self.cursor_row + 1;
            let count = if n < room {
                n
            } else {
                room
            };
            scroll_rows_down(
                &mut self.cells,
                self.cursor_row,
                self.scroll_bottom,
                count,
                self.cols,
                Cell::empty_on(self.current_attrs.bg),
            );
            self.generation = self.generation.wrapping_add(1);
        }
    }

    /// Deletes `n` lines at the cursor row, see [`GridModel::delete_lines`].
    pub fn delete_lines(&mut self, n: usize)
        requires
            old(self).wf(),
        ensures
            final(self)@ == old(self)@.delete_lines(n as int),
            final(self).wf(),
    {
        if self.scroll_top <= self.cursor_row && self.cursor_row <= self.scroll_bottom && n >= 1 {
            let room = self.scroll_bottom - self.cursor_row + 1;
            let count = if n < room {
                n
            } else {
                room
            };
            let mut dropped: Vec<Vec<Cell>> = Vec::new();
            scroll_rows_up(
                &mut self.cells,
                &mut dropped,
                0,
                self.cursor_row,
                self.scroll_bottom,
                count,
                self.cols,
                Cell::empty_on(self.current_attrs.bg),
            );
            self.generation = self.generation.wrapping_add(1);
        }
    }

    /// Deletes `n` cells at the cursor, see [`GridModel::delete_chars`].
    pub fn delete_chars(&mut self, n: usize)
        requires
            old(self).wf(),
        ensures
            final(self)@ == old(self)@.delete_chars(n as int),
            final(self).wf(),
    {
        if n >= 1 {
            let room = self.cols - self.cursor_col;
            let shift = if n < room {
                n
            } else {
                room
            };
            assert(rows_view(self.cells@)[self.cursor_row as int]
                == self.cells@[self.cursor_row as int]@);
            delete_cells(&mut self.cells, self.cursor_row, self.cursor_col, shift, Cell::default());
            self.generation = self.generation.wrapping_add(1);
        }
    }

    /// Inserts `n` blank cells at the cursor, see
    /// [`GridModel::insert_chars`].
    pub fn insert_chars(&mut self, n: usize)
        requires
            old(self).wf(),
        ensures
            final(self)@ == old(self)@.insert_chars(n as int),
            final(self).wf(),
    {
        if n >= 1 {
            let room = self.cols - self.cursor_col;
            let shift = if n < room {
                n
            } else {
                room
            };
            assert(rows_view(self.cells@)[self.cursor_row as int]
                == self.cells@[self.cursor_row as int]@);
            insert_cells(&mut self.cells, self.cursor_row, self.cursor_col, shift, Cell::default());
            self.generation = self.generation.wrapping_add(1);
        }
    }

    /// Blanks `n` cells from the cursor on, see [`GridModel::erase_chars`].
    pub fn erase_chars(&mut self, n: usize)
        requires
            old(self).wf(),
        ensures
            final(self)@ == old(self)@.erase_chars(n as int),
            final(self).wf(),
    {
        let room = self.cols - self.cursor_col;
        let end = if n < room {
            self.cursor_col + n
        } else {
            self.cols
        };
        self.clear_line_range(self.cursor_row, self.cursor_col, end);
    }

    /// Sets the scroll region, see [`GridModel::set_scroll_region`].
    pub fn set_scroll_region(&mut self, top: usize, bottom: usize, origin_mode: bool)
        requires
            old(self).wf(),
        ensures
            final(self)@ == old(self)@.set_scroll_region(top as int, bottom as int, origin_mode),
            final(self).wf(),
    {
        let first = if top <= 1 {
            0
        } else if top - 1 < self.rows - 1 {
            top - 1
        } else {
            self.rows - 1
        };
        let last = if bottom == 0 || bottom - 1 >= self.rows - 1 {
            self.rows - 1
        } else {
            bottom - 1
        };
        if first <= last {
            self.scroll_top = first;
            self.scroll_bottom = last;
        }
        self.cursor_row = if origin_mode {
            self.scroll_top
        } else {
            0
        };
        self.cursor_col = 0;
        self.pending_wrap = false;
    }

    /// Blanks the screen, makes the whole screen the scroll region and puts
    /// the cursor at (`row`, `col`), see [`GridModel::wiped`].
    pub fn wipe(&mut self, row: usize, col: usize)
        requires
            old(self).wf(),
        ensures
            final(self)@ == old(self)@.wiped(row as int, col as int),
            final(self).wf(),
    {
        fill_rows(&mut self.cells, 0, self.rows, Cell::default());
        self.scroll_top = 0;
        self.scroll_bottom = self.rows - 1;
        self.move_cursor_to(row, col);
        self.generation = self.generation.wrapping_add(1);
    }

    /// Backspace, see [`GridModel::backspace`].
    pub fn backspace(&mut self)
        requires
            old(self).wf(),
        ensures
            final(self)@ == old(self)@.backspace(),
            final(self).wf(),
    {
        if self.cursor_col > 0 {
            self.cursor_col -= 1;
        }
        self.pending_wrap = false;
    }

    /// Horizontal tab, see [`GridModel::tab`].
    pub fn tab(&mut self)
        requires
            old(self).wf(),
        ensures
            final(self)@ == old(self)@.tab(),
            final(self).wf(),
    {
        let stop = self.cursor_col / 8 * 8;
        self.cursor_col = if self.cols - 1 - stop > 8 {
            stop + 8
        } else {
            self.cols - 1
        };
        self.pending_wrap = false;
    }

    /// Reverse index, see [`GridModel::reverse_index`].
    pub fn reverse_index(&mut self)
        requires
            old(self).wf(),
        ensures
            final(self)@ == old(self)@.reverse_index(),
            final(self).wf(),
    {
        if self.cursor_row == self.scroll_top {
            self.scroll_down_region(1);
        } else if self.cursor_row > 0 {
            self.cursor_row -= 1;
        }
    }
}

} // verus!
