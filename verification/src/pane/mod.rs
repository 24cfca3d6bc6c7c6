//! The panes of a window: the layout tree and the sessions at its leaves.
//!
//! A [`PaneTree`] keeps the two in step: the leaves of the layout are the
//! ids of its panes, each once, and the focus is on one of them.

pub mod layout;

use vstd::prelude::*;
use crate::pane::layout::{Layout, Rect};
use crate::terminal::grid::GridModel;
use crate::terminal::parser::{rows_of, PerformerModel};
use crate::terminal::{SessionModel, Terminal};

verus! {

/// A direction on the screen.
#[derive(Debug, Clone, Copy, PartialEq, Eq, Structural)]
pub enum Direction {
    Left,
    Right,
    Up,
    Down,
}

/// The thousandths by which `resize_focused` moves a split: a twentieth.
pub const RESIZE_STEP: i32 = 50;

/// One pane: a terminal session under an id.
pub struct Pane {
    pub id: u64,
    pub terminal: Terminal,
}

impl Pane {
    /// A pane with a new session on an empty grid of `cols` × `rows` cells.
    pub fn new(id: u64, cols: usize, rows: usize) -> (pane: Self)
        requires
            cols >= 1,
            rows >= 1,
        ensures
            pane.id == id,
            pane.terminal.wf(),
            pane.terminal.performer@ == PerformerModel::fresh(
                GridModel::fresh(cols as int, rows as int),
            ),
    {
        Pane { id, terminal: Terminal::new(cols, rows) }
    }
}

/// The ids of a list of panes, in order.
pub open spec fn ids_of(panes: Seq<Pane>) -> Seq<u64> {
    Seq::new(panes.len(), |i: int| panes[i].id)
}

/// The index of the first `id` in `ids`, and `ids.len()` where there is
/// none.
pub open spec fn first_index(ids: Seq<u64>, id: u64) -> int
    decreases ids.len(),
{
    if ids.len() == 0 {
        0
    } else if ids[0] == id {
        0
    } else {
        1 + first_index(ids.drop_first(), id)
    }
}

/// The id that follows `id` in `ids` when `step` is 1, and the one before
/// it when `step` is -1, going round at the ends. An `id` that is not in
/// the list counts as the first.
pub open spec fn neighbour(ids: Seq<u64>, id: u64, step: int) -> u64 {
    let found = first_index(ids, id);
    let pos = if found < ids.len() {
        found
    } else {
        0
    };
    ids[(pos + ids.len() + step) % (ids.len() as int)]
}

/// The columns or rows that fit into `extent` pixels at `cell` pixels each
/// when the extent is first divided by `parts`: rounded down, but at least
/// one.
pub open spec fn cells_in(extent: u32, parts: int, cell: u32) -> int {
    if extent as int / (parts * cell) >= 1 {
        extent as int / (parts * cell)
    } else {
        1
    }
}

/// The horizontal centre of a rectangle, doubled.
pub open spec fn centre_x2(rect: Rect) -> int {
    2 * rect.x + rect.width
}

/// The vertical centre of a rectangle, doubled.
pub open spec fn centre_y2(rect: Rect) -> int {
    2 * rect.y + rect.height
}

/// Four times the square of the distance between the centres of two
/// rectangles.
pub open spec fn centre_distance(a: Rect, b: Rect) -> int {
    (centre_x2(a) - centre_x2(b)) * (centre_x2(a) - centre_x2(b)) + (centre_y2(a) - centre_y2(b))
        * (centre_y2(a) - centre_y2(b))
}

/// Whether `rect` lies in the direction `dir` of `from`: its far edge is
/// flush with the near edge of `from`, or beyond it, give or take a pixel.
pub open spec fn lies_towards(rect: Rect, from: Rect, dir: Direction) -> bool {
    match dir {
        Direction::Left => rect.x + rect.width <= from.x + 1,
        Direction::Right => rect.x + 1 >= from.x + from.width,
        Direction::Up => rect.y + rect.height <= from.y + 1,
        Direction::Down => rect.y + 1 >= from.y + from.height,
    }
}

/// The panes of a window with their layout and the focus.
pub struct PaneTree {
    pub panes: Vec<Pane>,
    /// The layout of the panes; `None` when there is no pane.
    pub layout: Option<Layout>,
    /// The pane that has the focus; `None` when there is no pane.
    pub focused_id: Option<u64>,
    /// The id that the next pane gets; ids are never used again.
    pub next_id: u64,
}

impl PaneTree {
    /// The ids of the panes, in the order in which they were made.
    pub open spec fn ids(&self) -> Seq<u64> {
        ids_of(self.panes@)
    }

    /// The ids of the leaves of the layout, depth first.
    pub open spec fn leaf_ids(&self) -> Seq<u64> {
        match self.layout {
            Some(layout) => layout.leaf_ids(),
            None => Seq::empty(),
        }
    }

    /// The invariant of the tree: no id is used twice; every session is
    /// well-formed; the leaves of the layout are the ids of the panes, each
    /// once; every ratio is in range; the focus is on a pane, unless there
    /// is none; and every id in use is below the next id.
    pub open spec fn wf(&self) -> bool {
        &&& self.ids().no_duplicates()
        &&& self.leaf_ids().no_duplicates()
        &&& forall|id: u64| self.leaf_ids().contains(id) <==> self.ids().contains(id)
        &&& forall|i: int| 0 <= i < self.panes@.len() ==> (#[trigger] self.panes@[i]).terminal.wf()
        &&& forall|i: int| 0 <= i < self.panes@.len() ==> (#[trigger] self.panes@[i]).id < self.next_id
        &&& match self.layout {
            Some(layout) => layout.wf(),
            None => true,
        }
        &&& match self.focused_id {
            Some(id) => self.ids().contains(id),
            None => self.panes@.len() == 0,
        }
    }

    /// A tree of one pane with the id 0, which has the focus.
    pub fn new(cols: usize, rows: usize) -> (tree: Self)
        requires
            cols >= 1,
            rows >= 1,
        ensures
            tree.wf(),
            tree.ids() == seq![0u64],
            tree.layout == Some(Layout::Leaf(0)),
            tree.focused_id == Some(0u64),
            tree.next_id == 1,
            tree.panes@[0].terminal.performer@ == PerformerModel::fresh(
                GridModel::fresh(cols as int, rows as int),
            ),
    {
        let mut panes: Vec<Pane> = Vec::new();
        panes.push(Pane::new(0, cols, rows));
        let tree = PaneTree { panes, layout: Some(Layout::Leaf(0)), focused_id: Some(0), next_id: 1 };
        proof {
            assert(tree.ids() =~= seq![0u64]);
            crate::pane::layout::lemma_singleton_contains(0u64);
        }
        tree
    }

    /// The index of the pane `id`.
    pub fn find_pane(&self, id: u64) -> (found: Option<usize>)
        ensures
            match found {
                Some(i) => i < self.panes@.len() && self.panes@[i as int].id == id && first_index(
                    self.ids(),
                    id,
                ) == i,
                None => !self.ids().contains(id),
            },
    {
        let ghost ids = self.ids();
        let mut i: usize = 0;
        assert(ids.subrange(0, ids.len() as int) =~= ids);
        while i < self.panes.len()
            invariant
                i <= self.panes@.len(),
                ids == self.ids(),
                forall|j: int| 0 <= j < i ==> ids[j] != id,
                first_index(ids, id) == i + first_index(ids.subrange(i as int, ids.len() as int), id),
            decreases self.panes@.len() - i,
        {
            let ghost rest = ids.subrange(i as int, ids.len() as int);
            assert(rest[0] == ids[i as int]);
            if self.panes[i].id == id {
                return Some(i);
            }
            assert(rest.drop_first() =~= ids.subrange(i + 1, ids.len() as int));
            i += 1;
        }
        None
    }

    /// The pane that has the focus.
    pub fn focused_pane(&self) -> (pane: Option<&Pane>)
        requires
            self.wf(),
        ensures
            match pane {
                Some(p) => Some(p.id) == self.focused_id && self.panes@.contains(*p),
                None => self.focused_id is None,
            },
    {
        match self.focused_id {
            Some(id) => {
                match self.find_pane(id) {
                    Some(i) => Some(&self.panes[i]),
                    None => None,
                }
            },
            None => None,
        }
    }
}

/// The ids of a list of rectangles, in order.
pub open spec fn rect_ids(rects: Seq<(u64, Rect)>) -> Seq<u64> {
    Seq::new(rects.len(), |i: int| rects[i].0)
}

/// The rectangle that `rects` gives the pane `id`: that of its first entry
/// for `id`, and `fallback` where it has none.
pub open spec fn rect_of(rects: Seq<(u64, Rect)>, id: u64, fallback: Rect) -> Rect {
    let i = first_index(rect_ids(rects), id);
    if i < rects.len() {
        rects[i].1
    } else {
        fallback
    }
}

/// The index of the first `id` in `ids` is the first index at which `id`
/// stands, or the length of `ids`.
pub proof fn lemma_first_index(ids: Seq<u64>, id: u64)
    ensures
        0 <= first_index(ids, id) <= ids.len(),
        first_index(ids, id) < ids.len() ==> ids[first_index(ids, id)] == id,
        forall|j: int| 0 <= j < first_index(ids, id) ==> ids[j] != id,
        first_index(ids, id) < ids.len() <==> ids.contains(id),
    decreases ids.len(),
{
    if ids.len() > 0 && ids[0] != id {
        let rest = ids.drop_first();
        lemma_first_index(rest, id);
        assert forall|j: int| 0 <= j < first_index(ids, id) implies ids[j] != id by {
            if j > 0 {
                assert(rest[j - 1] == ids[j]);
            }
        }
        if ids.contains(id) {
            let k = choose|k: int| 0 <= k < ids.len() && ids[k] == id;
            assert(rest[k - 1] == id);
        }
        if first_index(rest, id) < rest.len() {
            assert(ids[first_index(rest, id) + 1] == id);
        }
    } else if ids.len() > 0 {
        assert(ids[0] == id);
    }
}

/// The index of the first entry of `rects` for `id`.
fn find_rect(rects: &[(u64, Rect)], id: u64) -> (found: Option<usize>)
    ensures
        match found {
            Some(i) => i < rects@.len() && first_index(rect_ids(rects@), id) == i,
            None => first_index(rect_ids(rects@), id) == rects@.len(),
        },
{
    let ghost ids = rect_ids(rects@);
    proof {
        lemma_first_index(ids, id);
    }
    let mut i: usize = 0;
    while i < rects.len()
        invariant
            i <= rects@.len(),
            ids == rect_ids(rects@),
            forall|j: int| 0 <= j < i ==> ids[j] != id,
            0 <= first_index(ids, id) <= ids.len(),
            first_index(ids, id) < ids.len() ==> ids[first_index(ids, id)] == id,
            forall|j: int| 0 <= j < first_index(ids, id) ==> ids[j] != id,
        decreases rects@.len() - i,
    {
        if rects[i].0 == id {
            assert(ids[i as int] == id);
            return Some(i);
        }
        i += 1;
    }
    None
}

/// The index of the first `id` in `ids`.
fn find_id(ids: &Vec<u64>, id: u64) -> (found: Option<usize>)
    ensures
        match found {
            Some(i) => i < ids@.len() && first_index(ids@, id) == i,
            None => first_index(ids@, id) == ids@.len(),
        },
{
    proof {
        lemma_first_index(ids@, id);
    }
    let mut i: usize = 0;
    while i < ids.len()
        invariant
            i <= ids@.len(),
            forall|j: int| 0 <= j < i ==> ids@[j] != id,
            0 <= first_index(ids@, id) <= ids@.len(),
            first_index(ids@, id) < ids@.len() ==> ids@[first_index(ids@, id)] == id,
            forall|j: int| 0 <= j < first_index(ids@, id) ==> ids@[j] != id,
        decreases ids@.len() - i,
    {
        if ids[i] == id {
            return Some(i);
        }
        i += 1;
    }
    None
}

/// The columns or rows that fit, see [`cells_in`].
fn cells_that_fit(extent: u32, parts: u32, cell: u32) -> (n: usize)
    requires
        cell >= 1,
        parts == 1 || parts == 2,
    ensures
        n == cells_in(extent, parts as int, cell),
        n >= 1,
{
    let divisor: u64 = if parts == 2 {
        cell as u64 + cell as u64
    } else {
        cell as u64
    };
    assert(divisor == parts * cell) by (nonlinear_arith)
        requires
            parts == 1 || parts == 2,
            divisor == if parts == 2 {
                cell + cell
            } else {
                cell as int
            },
    ;
    let n = extent as u64 / divisor;
    if n >= 1 {
        n as usize
    } else {
        1
    }
}

impl PaneTree {
    /// The grid size of the pane that a split of the focused pane makes: the
    /// cells that fit into one half of the focused pane's rectangle, halved
    /// across the width for a split side by side and across the height
    /// otherwise. Where the layout does not place the focused pane, `rect`
    /// stands for its rectangle.
    pub open spec fn split_size(
        &self,
        horizontal: bool,
        cell_w: u32,
        cell_h: u32,
        rect: Rect,
    ) -> (int, int) {
        let focused = rect_of(self.layout->0.rects(rect), self.focused_id->0, rect);
        if horizontal {
            (cells_in(focused.width, 2, cell_w), cells_in(focused.height, 1, cell_h))
        } else {
            (cells_in(focused.width, 1, cell_w), cells_in(focused.height, 2, cell_h))
        }
    }

    /// The grid size `(cols, rows)` of the pane that a split of the focused
    /// pane would make, see [`PaneTree::split_size`].
    pub fn split_dims(&self, horizontal: bool, cell_w: u32, cell_h: u32, rect: Rect) -> (dims: (
        usize,
        usize,
    ))
        requires
            self.wf(),
            self.focused_id is Some,
            cell_w >= 1,
            cell_h >= 1,
            rect.wf(),
        ensures
            (dims.0 as int, dims.1 as int) == self.split_size(horizontal, cell_w, cell_h, rect),
            dims.0 >= 1,
            dims.1 >= 1,
    {
        let focused_id = self.focused_id.unwrap();
        proof {
            crate::pane::layout::lemma_singleton_contains(focused_id);
        }
        let focused = match &self.layout {
            Some(layout) => {
                let rects = layout.compute_rects(rect);
                match find_rect(rects.as_slice(), focused_id) {
                    Some(i) => rects[i].1,
                    None => rect,
                }
            },
            None => rect,
        };
        if horizontal {
            (cells_that_fit(focused.width, 2, cell_w), cells_that_fit(focused.height, 1, cell_h))
        } else {
            (cells_that_fit(focused.width, 1, cell_w), cells_that_fit(focused.height, 2, cell_h))
        }
    }

    /// What a split leaves, for the contracts of the two kinds of split.
    pub open spec fn split_result(
        old_tree: PaneTree,
        new_tree: PaneTree,
        new_id: Option<u64>,
        horizontal: bool,
        cell_w: u32,
        cell_h: u32,
        rect: Rect,
    ) -> bool {
        match new_id {
            Some(id) => {
                let size = old_tree.split_size(horizontal, cell_w, cell_h, rect);
                &&& old_tree.focused_id is Some
                &&& old_tree.next_id < u64::MAX
                &&& id == old_tree.next_id
                &&& new_tree.next_id == id + 1
                &&& new_tree.focused_id == Some(id)
                &&& new_tree.layout == Some(
                    old_tree.layout->0.with_split(old_tree.focused_id->0, id, horizontal),
                )
                &&& new_tree.panes@.len() == old_tree.panes@.len() + 1
                &&& new_tree.panes@.drop_last() == old_tree.panes@
                &&& new_tree.panes@.last().id == id
                &&& new_tree.panes@.last().terminal.performer@ == PerformerModel::fresh(
                    GridModel::fresh(size.0, size.1),
                )
            },
            None => {
                &&& old_tree.focused_id is None || old_tree.next_id == u64::MAX
                &&& new_tree == old_tree
            },
        }
    }

    /// Splits the focused pane in two and gives the new half a pane of its
    /// own, which gets the focus.
    fn split(&mut self, horizontal: bool, cell_w: u32, cell_h: u32, rect: Rect) -> (new_id: Option<
        u64,
    >)
        requires
            old(self).wf(),
            cell_w >= 1,
            cell_h >= 1,
            rect.wf(),
        ensures
            final(self).wf(),
            PaneTree::split_result(
                *old(self),
                *final(self),
                new_id,
                horizontal,
                cell_w,
                cell_h,
                rect,
            ),
    {
        let focused = match self.focused_id {
            Some(id) => id,
            None => {
                return None;
            },
        };
        if self.next_id == u64::MAX {
            return None;
        }
        let new_id = self.next_id;
        let (cols, rows) = self.split_dims(horizontal, cell_w, cell_h, rect);
        let layout = match self.layout.take() {
            Some(layout) => layout,
            None => Layout::Leaf(focused),
        };
        proof {
            assert(old(self).ids().len() > 0);
            assert(old(self).ids().contains(old(self).ids()[0]));
            layout.lemma_with_split(focused, new_id, horizontal);
            assert(!old(self).ids().contains(new_id)) by {
                if old(self).ids().contains(new_id) {
                    let i = choose|i: int|
                        0 <= i < old(self).ids().len() && old(self).ids()[i] == new_id;
                    assert(old(self).panes@[i].id == new_id);
                }
            }
        }
        self.next_id = new_id + 1;
        self.panes.push(Pane::new(new_id, cols, rows));
        self.layout = Some(
            if horizontal {
                layout.split_h(focused, new_id)
            } else {
                layout.split_v(focused, new_id)
            },
        );
        self.focused_id = Some(new_id);
        proof {
            let before = old(self).ids();
            let after = self.ids();
            assert(after =~= before.push(new_id));
            assert(self.panes@.drop_last() =~= old(self).panes@);
            assert(after[before.len() as int] == new_id);
            assert forall|x: u64| after.contains(x) <==> (before.contains(x) || x == new_id) by {
                if before.contains(x) {
                    let i = choose|i: int| 0 <= i < before.len() && before[i] == x;
                    assert(after[i] == x);
                }
                if after.contains(x) {
                    let i = choose|i: int| 0 <= i < after.len() && after[i] == x;
                    if i < before.len() {
                        assert(before[i] == x);
                    }
                }
            }
            assert(after.no_duplicates()) by {
                assert forall|i: int, j: int|
                    0 <= i < after.len() && 0 <= j < after.len() && i != j implies after[i]
                    != after[j] by {
                    if i < before.len() && j < before.len() {
                        assert(before[i] != before[j]);
                    } else if i < before.len() {
                        assert(before.contains(before[i]));
                    } else {
                        assert(before.contains(before[j]));
                    }
                }
            }
            assert forall|i: int| 0 <= i < self.panes@.len() implies (
            #[trigger] self.panes@[i]).terminal.wf() && self.panes@[i].id < self.next_id by {
                if i < old(self).panes@.len() {
                    assert(self.panes@[i] == old(self).panes@[i]);
                }
            }
        }
        Some(new_id)
    }

    /// Splits the focused pane into a left and a right half. The new pane
    /// takes the right half, gets the next id and the focus, and its grid is
    /// as large as fits into the half. Nothing happens in a tree without a
    /// pane and when the ids have run out.
    pub fn split_horizontal(&mut self, cell_w: u32, cell_h: u32, rect: Rect) -> (new_id: Option<u64>)
        requires
            old(self).wf(),
            cell_w >= 1,
            cell_h >= 1,
            rect.wf(),
        ensures
            final(self).wf(),
            PaneTree::split_result(*old(self), *final(self), new_id, true, cell_w, cell_h, rect),
    {
        self.split(true, cell_w, cell_h, rect)
    }

    /// Splits the focused pane into an upper and a lower half. The new pane
    /// takes the lower half, gets the next id and the focus, and its grid is
    /// as large as fits into the half. Nothing happens in a tree without a
    /// pane and when the ids have run out.
    pub fn split_vertical(&mut self, cell_w: u32, cell_h: u32, rect: Rect) -> (new_id: Option<u64>)
        requires
            old(self).wf(),
            cell_w >= 1,
            cell_h >= 1,
            rect.wf(),
        ensures
            final(self).wf(),
            PaneTree::split_result(*old(self), *final(self), new_id, false, cell_w, cell_h, rect),
    {
        self.split(false, cell_w, cell_h, rect)
    }
}

/// A list without its element `at` holds what the list held, but the
/// removed element where that stood there only once.
pub proof fn lemma_remove_ids(ids: Seq<u64>, at: int)
    requires
        0 <= at < ids.len(),
        ids.no_duplicates(),
    ensures
        ids.remove(at).no_duplicates(),
        forall|x: u64| ids.remove(at).contains(x) <==> (ids.contains(x) && x != ids[at]),
{
    let rest = ids.remove(at);
    assert forall|i: int, j: int| 0 <= i < rest.len() && 0 <= j < rest.len() && i != j implies rest[i]
        != rest[j] by {
        let i2 = if i < at {
            i
        } else {
            i + 1
        };
        let j2 = if j < at {
            j
        } else {
            j + 1
        };
        assert(rest[i] == ids[i2] && rest[j] == ids[j2]);
    }
    assert forall|x: u64| rest.contains(x) <==> (ids.contains(x) && x != ids[at]) by {
        if rest.contains(x) {
            let i = choose|i: int| 0 <= i < rest.len() && rest[i] == x;
            let i2 = if i < at {
                i
            } else {
                i + 1
            };
            assert(ids[i2] == x);
        }
        if ids.contains(x) && x != ids[at] {
            let i = choose|i: int| 0 <= i < ids.len() && ids[i] == x;
            let i2 = if i < at {
                i
            } else {
                i - 1
            };
            assert(rest[i2] == x);
        }
    }
}

impl PaneTree {
    /// The focus after the pane `closed` went: it stays where it was unless
    /// it was on that pane; then it goes to the first leaf of the layout,
    /// and is gone with the last pane.
    pub open spec fn focus_after_close(&self, before: Option<u64>, closed: u64) -> Option<u64> {
        if before == Some(closed) {
            if self.leaf_ids().len() > 0 {
                Some(self.leaf_ids()[0])
            } else {
                None
            }
        } else {
            before
        }
    }

    /// Closes the pane `id`: its session is dropped, its leaf leaves the
    /// layout, and the split that held it becomes the other child. If the
    /// pane had the focus, the focus goes to the first leaf of the layout.
    /// An `id` that names no pane changes nothing.
    pub fn close_pane(&mut self, id: u64)
        requires
            old(self).wf(),
        ensures
            final(self).wf(),
            final(self).next_id == old(self).next_id,
            final(self).layout == match old(self).layout {
                Some(layout) => layout.without(id),
                None => None,
            },
            final(self).panes@ == if old(self).ids().contains(id) {
                old(self).panes@.remove(first_index(old(self).ids(), id))
            } else {
                old(self).panes@
            },
            final(self).focused_id == final(self).focus_after_close(old(self).focused_id, id),
    {
        let found = self.find_pane(id);
        let ghost before = self.ids();
        proof {
            if self.layout is Some {
                self.layout->0.lemma_without(id);
                self.layout->0.lemma_has_leaf();
            }
        }
        match found {
            Some(i) => {
                let _closed = self.panes.remove(i);
                proof {
                    lemma_remove_ids(before, i as int);
                    assert(self.ids() =~= before.remove(i as int));
                    assert forall|k: int| 0 <= k < self.panes@.len() implies (
                    #[trigger] self.panes@[k]).terminal.wf() && self.panes@[k].id
                        < self.next_id by {
                        let k2 = if k < i {
                            k
                        } else {
                            k + 1
                        };
                        assert(self.panes@[k] == old(self).panes@[k2]);
                    }
                }
            },
            None => {},
        }
        self.layout = match self.layout.take() {
            Some(layout) => layout.remove(id),
            None => None,
        };
        proof {
            let leaves = old(self).leaf_ids();
            assert forall|x: u64| self.ids().contains(x) <==> (before.contains(x) && x != id) by {
                if found is Some {
                    assert(before[found->0 as int] == id);
                }
            }
            assert forall|x: u64| self.leaf_ids().contains(x) <==> (leaves.contains(x) && x
                != id) by {
                if old(self).layout is Some && old(self).layout->0.without(id) is None {
                    assert(!Seq::<u64>::empty().contains(x));
                }
            }
        }
        if self.focused_id == Some(id) {
            self.focused_id = match &self.layout {
                Some(layout) => Some(layout.first_leaf()),
                None => None,
            };
            proof {
                if self.layout is Some {
                    let ids = self.layout->0.leaf_ids();
                    assert(ids.contains(ids[0]));
                } else if self.panes@.len() > 0 {
                    assert(self.ids().contains(self.ids()[0]));
                }
            }
        }
        assert(self.ids().no_duplicates());
        assert(self.leaf_ids().no_duplicates());
        assert forall|x: u64| self.leaf_ids().contains(x) <==> self.ids().contains(x) by {
            assert(old(self).leaf_ids().contains(x) <==> before.contains(x));
            assert(self.ids().contains(x) <==> (before.contains(x) && x != id));
            assert(self.leaf_ids().contains(x) <==> (old(self).leaf_ids().contains(x) && x != id));
        }
        assert(self.focused_id is Some ==> self.ids().contains(self.focused_id->0));
        assert(self.focused_id is None ==> self.panes@.len() == 0);
    }

    /// Closes the pane that has the focus.
    pub fn close_focused(&mut self)
        requires
            old(self).wf(),
        ensures
            final(self).wf(),
            final(self).next_id == old(self).next_id,
            match old(self).focused_id {
                Some(id) => {
                    &&& final(self).layout == old(self).layout->0.without(id)
                    &&& final(self).panes@ == old(self).panes@.remove(
                        first_index(old(self).ids(), id),
                    )
                    &&& final(self).focused_id == final(self).focus_after_close(Some(id), id)
                },
                None => *final(self) == *old(self),
            },
    {
        match self.focused_id {
            Some(id) => {
                proof {
                    if self.layout is None {
                        assert(!self.leaf_ids().contains(id));
                    }
                }
                self.close_pane(id);
            },
            None => {},
        }
    }

    /// Moves the focus by `step` through the leaves of the layout.
    fn cycle_focus(&mut self, forward: bool)
        requires
            old(self).wf(),
        ensures
            final(self).wf(),
            final(self).panes == old(self).panes,
            final(self).layout == old(self).layout,
            final(self).next_id == old(self).next_id,
            final(self).focused_id == match (old(self).layout, old(self).focused_id) {
                (Some(layout), Some(id)) => Some(
                    neighbour(
                        layout.leaf_ids(),
                        id,
                        if forward {
                            1
                        } else {
                            -1
                        },
                    ),
                ),
                _ => old(self).focused_id,
            },
    {
        let focused = match self.focused_id {
            Some(id) => id,
            None => {
                return ;
            },
        };
        let ids = match &self.layout {
            Some(layout) => layout.pane_ids(),
            None => {
                return ;
            },
        };
        proof {
            self.layout->0.lemma_has_leaf();
            lemma_first_index(ids@, focused);
        }
        let len = ids.len();
        let pos = match find_id(&ids, focused) {
            Some(i) => i,
            None => 0,
        };
        let next = if forward {
            if pos + 1 == len {
                0
            } else {
                pos + 1
            }
        } else {
            if pos == 0 {
                len - 1
            } else {
                pos - 1
            }
        };
        assert(next == (pos + len + if forward {
            1int
        } else {
            -1int
        }) % (len as int)) by {
            if forward {
                if pos + 1 == len {
                    assert((len + len) % (len as int) == 0) by (nonlinear_arith)
                        requires
                            len > 0,
                    ;
                } else {
                    assert((pos + len + 1) % (len as int) == pos + 1) by (nonlinear_arith)
                        requires
                            0 <= pos + 1 < len,
                    ;
                }
            } else {
                if pos == 0 {
                    assert((len - 1) % (len as int) == len - 1) by (nonlinear_arith)
                        requires
                            len > 0,
                    ;
                } else {
                    assert((pos + len - 1) % (len as int) == pos - 1) by (nonlinear_arith)
                        requires
                            0 <= pos - 1 < len,
                    ;
                }
            }
        }
        self.focused_id = Some(ids[next]);
        assert(self.leaf_ids().contains(ids@[next as int]));
    }

    /// Moves the focus to the next leaf of the layout, from the last to the
    /// first.
    pub fn focus_next(&mut self)
        requires
            old(self).wf(),
        ensures
            final(self).wf(),
            final(self).panes == old(self).panes,
            final(self).layout == old(self).layout,
            final(self).next_id == old(self).next_id,
            final(self).focused_id == match (old(self).layout, old(self).focused_id) {
                (Some(layout), Some(id)) => Some(neighbour(layout.leaf_ids(), id, 1)),
                _ => old(self).focused_id,
            },
    {
        self.cycle_focus(true);
    }

    /// Moves the focus to the leaf before, from the first to the last.
    pub fn focus_prev(&mut self)
        requires
            old(self).wf(),
        ensures
            final(self).wf(),
            final(self).panes == old(self).panes,
            final(self).layout == old(self).layout,
            final(self).next_id == old(self).next_id,
            final(self).focused_id == match (old(self).layout, old(self).focused_id) {
                (Some(layout), Some(id)) => Some(neighbour(layout.leaf_ids(), id, -1)),
                _ => old(self).focused_id,
            },
    {
        self.cycle_focus(false);
    }

    /// The thousandths by which a resize towards `dir` moves the splits
    /// side by side and those one above the other.
    pub open spec fn resize_deltas(dir: Direction) -> (int, int) {
        match dir {
            Direction::Left => (-(RESIZE_STEP as int), 0),
            Direction::Right => (RESIZE_STEP as int, 0),
            Direction::Up => (0, -(RESIZE_STEP as int)),
            Direction::Down => (0, RESIZE_STEP as int),
        }
    }

    /// Moves the edge of the focused pane by a twentieth of the split that
    /// holds it: left and right move the splits side by side, up and down
    /// those one above the other. Every ratio stays between a tenth and
    /// nine tenths.
    pub fn resize_focused(&mut self, dir: Direction)
        requires
            old(self).wf(),
        ensures
            final(self).wf(),
            final(self).panes == old(self).panes,
            final(self).focused_id == old(self).focused_id,
            final(self).next_id == old(self).next_id,
            final(self).layout == match (old(self).layout, old(self).focused_id) {
                (Some(layout), Some(id)) => Some(
                    layout.nudged(
                        id,
                        PaneTree::resize_deltas(dir).0,
                        PaneTree::resize_deltas(dir).1,
                    ),
                ),
                _ => old(self).layout,
            },
    {
        let focused = match self.focused_id {
            Some(id) => id,
            None => {
                return ;
            },
        };
        let (h_delta, v_delta) = match dir {
            Direction::Left => (-RESIZE_STEP, 0),
            Direction::Right => (RESIZE_STEP, 0),
            Direction::Up => (0, -RESIZE_STEP),
            Direction::Down => (0, RESIZE_STEP),
        };
        match self.layout.take() {
            Some(layout) => {
                let mut layout = layout;
                proof {
                    layout.lemma_nudged(focused, h_delta as int, v_delta as int);
                }
                layout.nudge_ratio_for(focused, h_delta, v_delta);
                self.layout = Some(layout);
            },
            None => {},
        }
    }
}

/// What a list of sizes holds.
pub open spec fn sizes_view(sizes: Seq<(u64, usize, usize)>) -> Seq<(u64, int, int)> {
    Seq::new(sizes.len(), |i: int| (sizes[i].0, sizes[i].1 as int, sizes[i].2 as int))
}

/// Whether the entry `i` of `rects` is a pane to which the focus may go
/// from the pane `focused` at `from`: another pane of the tree that lies in
/// the direction `dir`.
pub open spec fn is_candidate(
    rects: Seq<(u64, Rect)>,
    i: int,
    focused: u64,
    from: Rect,
    dir: Direction,
    ids: Seq<u64>,
) -> bool {
    &&& rects[i].0 != focused
    &&& ids.contains(rects[i].0)
    &&& lies_towards(rects[i].1, from, dir)
}

/// The candidate among the first `upto` entries of `rects` whose centre is
/// nearest to that of `from`, the first of them where several are equally
/// near; `None` where there is no candidate.
pub open spec fn nearest(
    rects: Seq<(u64, Rect)>,
    upto: int,
    focused: u64,
    from: Rect,
    dir: Direction,
    ids: Seq<u64>,
) -> Option<int>
    decreases upto,
{
    if upto <= 0 {
        None
    } else {
        let before = nearest(rects, upto - 1, focused, from, dir, ids);
        let i = upto - 1;
        if is_candidate(rects, i, focused, from, dir, ids) && (before is None || centre_distance(
            rects[i].1,
            from,
        ) < centre_distance(rects[before->0].1, from)) {
            Some(i)
        } else {
            before
        }
    }
}

/// What [`nearest`] finds is a candidate that no candidate is nearer than,
/// and that no candidate before it is as near as; and it finds one
/// wherever there is a candidate.
pub proof fn lemma_nearest(
    rects: Seq<(u64, Rect)>,
    upto: int,
    focused: u64,
    from: Rect,
    dir: Direction,
    ids: Seq<u64>,
)
    requires
        0 <= upto <= rects.len(),
    ensures
        match nearest(rects, upto, focused, from, dir, ids) {
            Some(best) => {
                &&& 0 <= best < upto
                &&& is_candidate(rects, best, focused, from, dir, ids)
                &&& forall|j: int|
                    0 <= j < upto && is_candidate(rects, j, focused, from, dir, ids)
                        ==> centre_distance(rects[best].1, from) <= centre_distance(
                        #[trigger] rects[j].1,
                        from,
                    )
                &&& forall|j: int|
                    0 <= j < best && is_candidate(rects, j, focused, from, dir, ids)
                        ==> centre_distance(rects[best].1, from) < centre_distance(
                        #[trigger] rects[j].1,
                        from,
                    )
            },
            None => forall|j: int|
                0 <= j < upto ==> !is_candidate(rects, j, focused, from, dir, ids),
        },
    decreases upto,
{
    if upto > 0 {
        lemma_nearest(rects, upto - 1, focused, from, dir, ids);
    }
}

/// Four times the square of the distance between the centres of `a` and
/// `b`.
fn distance(a: Rect, b: Rect) -> (d: u128)
    ensures
        d == centre_distance(a, b),
{
    let ax: u64 = 2 * (a.x as u64) + a.width as u64;
    let bx: u64 = 2 * (b.x as u64) + b.width as u64;
    let ay: u64 = 2 * (a.y as u64) + a.height as u64;
    let by: u64 = 2 * (b.y as u64) + b.height as u64;
    let dx: u128 = if ax >= bx {
        (ax - bx) as u128
    } else {
        (bx - ax) as u128
    };
    let dy: u128 = if ay >= by {
        (ay - by) as u128
    } else {
        (by - ay) as u128
    };
    assert(dx * dx <= 0x4_0000_0000 * 0x4_0000_0000 && dx * dx == (ax - bx) * (ax - bx))
        by (nonlinear_arith)
        requires
            0 <= dx <= 0x4_0000_0000,
            dx == ax - bx || dx == bx - ax,
    ;
    assert(dy * dy <= 0x4_0000_0000 * 0x4_0000_0000 && dy * dy == (ay - by) * (ay - by))
        by (nonlinear_arith)
        requires
            0 <= dy <= 0x4_0000_0000,
            dy == ay - by || dy == by - ay,
    ;
    dx * dx + dy * dy
}

/// Whether `rect` lies in the direction `dir` of `from`.
fn towards(rect: Rect, from: Rect, dir: Direction) -> (b: bool)
    ensures
        b == lies_towards(rect, from, dir),
{
    match dir {
        Direction::Left => rect.x as u64 + rect.width as u64 <= from.x as u64 + 1,
        Direction::Right => rect.x as u64 + 1 >= from.x as u64 + from.width as u64,
        Direction::Up => rect.y as u64 + rect.height as u64 <= from.y as u64 + 1,
        Direction::Down => rect.y as u64 + 1 >= from.y as u64 + from.height as u64,
    }
}

impl PaneTree {
    /// The pane that has the focus after a move towards `dir`, where
    /// `rects` places the panes: of the other panes of the tree that lie in
    /// that direction of the focused pane, the one whose centre is nearest
    /// to its centre, and the first in `rects` of several that are equally
    /// near. The focus stays where `rects` does not place the focused pane
    /// and where no pane lies in that direction.
    pub open spec fn focus_towards(&self, rects: Seq<(u64, Rect)>, dir: Direction) -> Option<u64> {
        match self.focused_id {
            Some(focused) => {
                let at = first_index(rect_ids(rects), focused);
                if at < rects.len() {
                    match nearest(
                        rects,
                        rects.len() as int,
                        focused,
                        rects[at].1,
                        dir,
                        self.ids(),
                    ) {
                        Some(best) => Some(rects[best].0),
                        None => Some(focused),
                    }
                } else {
                    Some(focused)
                }
            },
            None => None,
        }
    }

    /// Moves the focus to the nearest pane in the direction `dir`, see
    /// [`PaneTree::focus_towards`]. `layout_rects` places the panes.
    pub fn focus_direction(&mut self, layout_rects: &[(u64, Rect)], dir: Direction)
        requires
            old(self).wf(),
        ensures
            final(self).wf(),
            final(self).panes == old(self).panes,
            final(self).layout == old(self).layout,
            final(self).next_id == old(self).next_id,
            final(self).focused_id == old(self).focus_towards(layout_rects@, dir),
    {
        let focused = match self.focused_id {
            Some(id) => id,
            None => {
                return ;
            },
        };
        let from = match find_rect(layout_rects, focused) {
            Some(i) => layout_rects[i].1,
            None => {
                return ;
            },
        };
        let mut best: Option<usize> = None;
        let mut best_distance: u128 = 0;
        let mut i: usize = 0;
        while i < layout_rects.len()
            invariant
                i <= layout_rects@.len(),
                self.wf(),
                *self == *old(self),
                match best {
                    Some(b) => Some(b as int),
                    None => None,
                } == nearest(layout_rects@, i as int, focused, from, dir, self.ids()),
                best matches Some(b) ==> b < i && best_distance == centre_distance(
                    layout_rects@[b as int].1,
                    from,
                ) && self.ids().contains(layout_rects@[b as int].0),
            decreases layout_rects@.len() - i,
        {
            let (id, rect) = layout_rects[i];
            let known = self.find_pane(id);
            proof {
                if known is Some {
                    assert(self.ids()[known->0 as int] == id);
                }
                assert(is_candidate(layout_rects@, i as int, focused, from, dir, self.ids()) == (id
                    != focused && lies_towards(rect, from, dir) && known is Some));
            }
            if id != focused && towards(rect, from, dir) && known.is_some() {
                let d = distance(rect, from);
                if best.is_none() || d < best_distance {
                    best = Some(i);
                    best_distance = d;
                }
            }
            i += 1;
        }
        match best {
            Some(b) => {
                self.focused_id = Some(layout_rects[b].0);
            },
            None => {},
        }
    }

    /// The session of the pane `id` after `rects[..upto]` placed the panes,
    /// when a cell is `cell_w` × `cell_h` pixels: for each entry of `rects`
    /// for that pane, in order, the grid is resized to the cells that fit
    /// into its rectangle, at least one each way.
    pub open spec fn session_resized(
        session: SessionModel,
        id: u64,
        rects: Seq<(u64, Rect)>,
        upto: int,
        cell_w: u32,
        cell_h: u32,
    ) -> SessionModel
        decreases upto,
    {
        if upto <= 0 {
            session
        } else {
            let before = PaneTree::session_resized(session, id, rects, upto - 1, cell_w, cell_h);
            if rects[upto - 1].0 == id {
                before.resized(
                    cells_in(rects[upto - 1].1.width, 1, cell_w),
                    cells_in(rects[upto - 1].1.height, 1, cell_h),
                )
            } else {
                before
            }
        }
    }

    /// The new sizes that `rects[..upto]` gives the panes `ids`, as
    /// `(id, cols, rows)`: one entry for each entry of `rects` that names a
    /// pane, in order.
    pub open spec fn new_sizes(
        ids: Seq<u64>,
        rects: Seq<(u64, Rect)>,
        upto: int,
        cell_w: u32,
        cell_h: u32,
    ) -> Seq<(u64, int, int)>
        decreases upto,
    {
        if upto <= 0 {
            Seq::empty()
        } else {
            let before = PaneTree::new_sizes(ids, rects, upto - 1, cell_w, cell_h);
            let (id, rect) = rects[upto - 1];
            if ids.contains(id) {
                before.push((id, cells_in(rect.width, 1, cell_w), cells_in(rect.height, 1, cell_h)))
            } else {
                before
            }
        }
    }

    /// Gives the grid of the pane `id` the size `cols` × `rows`. The result
    /// says whether there is such a pane.
    fn resize_pane(&mut self, id: u64, cols: usize, rows: usize) -> (found: bool)
        requires
            old(self).wf(),
            cols >= 1,
            rows >= 1,
        ensures
            final(self).wf(),
            found == old(self).ids().contains(id),
            final(self).ids() == old(self).ids(),
            final(self).panes@.len() == old(self).panes@.len(),
            final(self).layout == old(self).layout,
            final(self).focused_id == old(self).focused_id,
            final(self).next_id == old(self).next_id,
            forall|i: int|
                0 <= i < old(self).panes@.len() ==> (#[trigger] final(self).panes@[i]).terminal@
                    == if old(self).panes@[i].id == id {
                    old(self).panes@[i].terminal@.resized(cols as int, rows as int)
                } else {
                    old(self).panes@[i].terminal@
                },
    {
        let ghost before = self.panes@;
        match self.find_pane(id) {
            Some(at) => {
                assert(self.ids()[at as int] == id);
                self.panes[at].terminal.resize(cols, rows);
                proof {
                    assert(self.ids() =~= old(self).ids());
                    assert forall|i: int| 0 <= i < before.len() implies (
                    #[trigger] self.panes@[i]).terminal@ == if before[i].id == id {
                        before[i].terminal@.resized(cols as int, rows as int)
                    } else {
                        before[i].terminal@
                    } by {
                        if i != at {
                            assert(self.panes@[i] == before[i]);
                            assert(old(self).ids()[i] != old(self).ids()[at as int]);
                        }
                    }
                }
                true
            },
            None => {
                proof {
                    assert forall|i: int| 0 <= i < before.len() implies before[i].id != id by {
                        assert(old(self).ids()[i] == before[i].id);
                    }
                }
                false
            },
        }
    }

    /// Gives each pane that `layout_rects` places the grid that fits into
    /// its rectangle: as many columns and rows as there are whole cells of
    /// `cell_w` × `cell_h` pixels in it, and at least one each way. The
    /// result lists the panes that were placed with their new sizes, for
    /// the pseudoterminals to follow.
    pub fn resize_panes(&mut self, layout_rects: &[(u64, Rect)], cell_w: u32, cell_h: u32) -> (sizes:
        Vec<(u64, usize, usize)>)
        requires
            old(self).wf(),
            cell_w >= 1,
            cell_h >= 1,
        ensures
            final(self).wf(),
            final(self).ids() == old(self).ids(),
            final(self).layout == old(self).layout,
            final(self).focused_id == old(self).focused_id,
            final(self).next_id == old(self).next_id,
            forall|i: int|
                0 <= i < old(self).panes@.len() ==> (#[trigger] final(self).panes@[i]).terminal@
                    == PaneTree::session_resized(
                    old(self).panes@[i].terminal@,
                    old(self).panes@[i].id,
                    layout_rects@,
                    layout_rects@.len() as int,
                    cell_w,
                    cell_h,
                ),
            sizes_view(sizes@) == PaneTree::new_sizes(
                old(self).ids(),
                layout_rects@,
                layout_rects@.len() as int,
                cell_w,
                cell_h,
            ),
    {
        let mut sizes: Vec<(u64, usize, usize)> = Vec::new();
        let mut k: usize = 0;
        while k < layout_rects.len()
            invariant
                k <= layout_rects@.len(),
                cell_w >= 1,
                cell_h >= 1,
                self.wf(),
                self.ids() == old(self).ids(),
                self.panes@.len() == old(self).panes@.len(),
                self.layout == old(self).layout,
                self.focused_id == old(self).focused_id,
                self.next_id == old(self).next_id,
                forall|i: int|
                    0 <= i < self.panes@.len() ==> (#[trigger] self.panes@[i]).terminal@
                        == PaneTree::session_resized(
                        old(self).panes@[i].terminal@,
                        old(self).panes@[i].id,
                        layout_rects@,
                        k as int,
                        cell_w,
                        cell_h,
                    ),
                sizes_view(sizes@) == PaneTree::new_sizes(
                    old(self).ids(),
                    layout_rects@,
                    k as int,
                    cell_w,
                    cell_h,
                ),
            decreases layout_rects@.len() - k,
        {
            let (id, rect) = layout_rects[k];
            let cols = cells_that_fit(rect.width, 1, cell_w);
            let rows = cells_that_fit(rect.height, 1, cell_h);
            let ghost before = self.panes@;
            let ghost listed = sizes_view(sizes@);
            if self.resize_pane(id, cols, rows) {
                sizes.push((id, cols, rows));
                assert(sizes_view(sizes@) =~= listed.push((id, cols as int, rows as int)));
            }
            proof {
                assert forall|i: int| 0 <= i < self.panes@.len() implies (
                #[trigger] self.panes@[i]).terminal@ == PaneTree::session_resized(
                    old(self).panes@[i].terminal@,
                    old(self).panes@[i].id,
                    layout_rects@,
                    k + 1,
                    cell_w,
                    cell_h,
                ) by {
                    assert(before[i].id == old(self).ids()[i]);
                    assert(old(self).panes@[i].id == old(self).ids()[i]);
                    assert(before[i].terminal@ == PaneTree::session_resized(
                        old(self).panes@[i].terminal@,
                        old(self).panes@[i].id,
                        layout_rects@,
                        k as int,
                        cell_w,
                        cell_h,
                    ));
                }
            }
            k += 1;
        }
        sizes
    }

    /// The session of the pane `id` after the entries `output[..upto]`:
    /// each entry for that pane, in order, has fed the session its chunks.
    pub open spec fn session_drained(
        session: SessionModel,
        id: u64,
        output: Seq<(u64, Vec<Vec<u8>>)>,
        upto: int,
    ) -> SessionModel
        decreases upto,
    {
        if upto <= 0 {
            session
        } else {
            let before = PaneTree::session_drained(session, id, output, upto - 1);
            if output[upto - 1].0 == id {
                before.fed_all(rows_of(output[upto - 1].1@))
            } else {
                before
            }
        }
    }

    /// Feeds the session of the pane `id` the chunks `chunks`; without such
    /// a pane nothing happens.
    fn feed_pane(&mut self, id: u64, chunks: &Vec<Vec<u8>>)
        requires
            old(self).wf(),
        ensures
            final(self).wf(),
            final(self).ids() == old(self).ids(),
            final(self).panes@.len() == old(self).panes@.len(),
            final(self).layout == old(self).layout,
            final(self).focused_id == old(self).focused_id,
            final(self).next_id == old(self).next_id,
            forall|i: int|
                0 <= i < old(self).panes@.len() ==> (#[trigger] final(self).panes@[i]).terminal@
                    == if old(self).panes@[i].id == id {
                    old(self).panes@[i].terminal@.fed_all(rows_of(chunks@))
                } else {
                    old(self).panes@[i].terminal@
                },
    {
        let ghost before = self.panes@;
        match self.find_pane(id) {
            Some(at) => {
                assert(self.ids()[at as int] == id);
                self.panes[at].terminal.drain_pty_output(chunks);
                proof {
                    assert(self.ids() =~= old(self).ids());
                    assert forall|i: int| 0 <= i < before.len() implies (
                    #[trigger] self.panes@[i]).terminal@ == if before[i].id == id {
                        before[i].terminal@.fed_all(rows_of(chunks@))
                    } else {
                        before[i].terminal@
                    } by {
                        if i != at {
                            assert(self.panes@[i] == before[i]);
                            assert(old(self).ids()[i] != old(self).ids()[at as int]);
                        }
                    }
                }
            },
            None => {
                proof {
                    assert forall|i: int| 0 <= i < before.len() implies before[i].id != id by {
                        assert(old(self).ids()[i] == before[i].id);
                    }
                }
            },
        }
    }

    /// Hands each pane the output that was read from its pseudoterminal:
    /// for each entry of `output`, the chunks for the pane of that id, in
    /// order. Output for a pane that is gone is dropped, and a session
    /// without output is what it was.
    pub fn drain_all_pty_output(&mut self, output: &Vec<(u64, Vec<Vec<u8>>)>)
        requires
            old(self).wf(),
        ensures
            final(self).wf(),
            final(self).ids() == old(self).ids(),
            final(self).layout == old(self).layout,
            final(self).focused_id == old(self).focused_id,
            final(self).next_id == old(self).next_id,
            forall|i: int|
                0 <= i < old(self).panes@.len() ==> (#[trigger] final(self).panes@[i]).terminal@
                    == PaneTree::session_drained(
                    old(self).panes@[i].terminal@,
                    old(self).panes@[i].id,
                    output@,
                    output@.len() as int,
                ),
    {
        let mut k: usize = 0;
        while k < output.len()
            invariant
                k <= output@.len(),
                self.wf(),
                self.ids() == old(self).ids(),
                self.panes@.len() == old(self).panes@.len(),
                self.layout == old(self).layout,
                self.focused_id == old(self).focused_id,
                self.next_id == old(self).next_id,
                forall|i: int|
                    0 <= i < self.panes@.len() ==> (#[trigger] self.panes@[i]).terminal@
                        == PaneTree::session_drained(
                        old(self).panes@[i].terminal@,
                        old(self).panes@[i].id,
                        output@,
                        k as int,
                    ),
            decreases output@.len() - k,
        {
            let ghost before = self.panes@;
            self.feed_pane(output[k].0, &output[k].1);
            proof {
                assert forall|i: int| 0 <= i < self.panes@.len() implies (
                #[trigger] self.panes@[i]).terminal@ == PaneTree::session_drained(
                    old(self).panes@[i].terminal@,
                    old(self).panes@[i].id,
                    output@,
                    k + 1,
                ) by {
                    assert(before[i].id == old(self).ids()[i]);
                    assert(old(self).panes@[i].id == old(self).ids()[i]);
                    assert(before[i].terminal@ == PaneTree::session_drained(
                        old(self).panes@[i].terminal@,
                        old(self).panes@[i].id,
                        output@,
                        k as int,
                    ));
                }
            }
            k += 1;
        }
    }
}

/// Two lists that hold the same elements, each once, are permutations of
/// each other.
pub proof fn lemma_same_members_permutation(a: Seq<u64>, b: Seq<u64>)
    requires
        a.no_duplicates(),
        b.no_duplicates(),
        forall|x: u64| a.contains(x) <==> b.contains(x),
    ensures
        a.to_multiset() == b.to_multiset(),
{
    a.lemma_multiset_has_no_duplicates();
    b.lemma_multiset_has_no_duplicates();
    assert forall|x: u64| a.to_multiset().count(x) == b.to_multiset().count(x) by {
        vstd::seq_lib::to_multiset_contains(a, x);
        vstd::seq_lib::to_multiset_contains(b, x);
        assert(a.contains(x) <==> b.contains(x));
    }
    assert(a.to_multiset() =~= b.to_multiset());
}

/// Layout well-formedness and focus presence. In a well-formed tree the
/// leaves of the layout are a permutation of the ids of the panes, and the
/// focus is on one of the panes if there is a pane. Every operation of the
/// tree keeps it well-formed.
pub proof fn lemma_leaves_are_panes(tree: PaneTree)
    requires
        tree.wf(),
    ensures
        tree.leaf_ids().to_multiset() == tree.ids().to_multiset(),
        tree.leaf_ids().len() == tree.panes@.len(),
        tree.panes@.len() > 0 ==> tree.focused_id is Some && tree.ids().contains(
            tree.focused_id->0,
        ),
        tree.panes@.len() > 0 <==> tree.layout is Some,
{
    lemma_same_members_permutation(tree.leaf_ids(), tree.ids());
    vstd::seq_lib::to_multiset_len(tree.leaf_ids());
    vstd::seq_lib::to_multiset_len(tree.ids());
    if tree.layout is Some {
        tree.layout->0.lemma_has_leaf();
    }
}

} // verus!
