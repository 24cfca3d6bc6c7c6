//! The layout tree: how the window is cut into panes.
//!
//! A tree is a leaf, which names a pane, or a split of a rectangle into two
//! trees, side by side or one above the other. The share of the first child
//! is a ratio in thousandths and lies between a tenth and nine tenths.

use vstd::prelude::*;

verus! {

/// The denominator of a split ratio.
pub const RATIO_SCALE: u32 = 1000;

/// The smallest share that a split leaves its first child: a tenth.
pub const MIN_RATIO: u32 = 100;

/// The largest share that a split leaves its first child: nine tenths.
pub const MAX_RATIO: u32 = 900;

/// The ratio of a new split: one half.
pub const EVEN_RATIO: u32 = 500;

/// A rectangle in physical pixels, with the origin at the top left.
#[derive(Debug, Clone, Copy, PartialEq, Eq, Structural)]
pub struct Rect {
    pub x: u32,
    pub y: u32,
    pub width: u32,
    pub height: u32,
}

impl Rect {
    /// The right and the lower edge are coordinates too.
    pub open spec fn wf(self) -> bool {
        &&& self.x + self.width <= u32::MAX
        &&& self.y + self.height <= u32::MAX
    }

    /// The rectangle with the corner (`x`, `y`) and the given size.
    pub fn new(x: u32, y: u32, width: u32, height: u32) -> (rect: Self)
        ensures
            rect == (Rect { x, y, width, height }),
    {
        Rect { x, y, width, height }
    }

    /// The share `ratio` of `extent`, rounded down.
    pub open spec fn share(extent: u32, ratio: u32) -> u32 {
        (extent * ratio / (RATIO_SCALE as int)) as u32
    }

    /// The left part of the rectangle, as wide as a split with `ratio`
    /// leaves its first child.
    pub open spec fn left_part(self, ratio: u32) -> Rect {
        Rect { width: Rect::share(self.width, ratio), ..self }
    }

    /// What a split with `ratio` leaves to the right of the left part.
    pub open spec fn right_part(self, ratio: u32) -> Rect {
        Rect {
            x: (self.x + Rect::share(self.width, ratio)) as u32,
            width: (self.width - Rect::share(self.width, ratio)) as u32,
            ..self
        }
    }

    /// The upper part of the rectangle, as high as a split with `ratio`
    /// leaves its first child.
    pub open spec fn top_part(self, ratio: u32) -> Rect {
        Rect { height: Rect::share(self.height, ratio), ..self }
    }

    /// What a split with `ratio` leaves below the upper part.
    pub open spec fn bottom_part(self, ratio: u32) -> Rect {
        Rect {
            y: (self.y + Rect::share(self.height, ratio)) as u32,
            height: (self.height - Rect::share(self.height, ratio)) as u32,
            ..self
        }
    }
}

/// The share `ratio` of `extent`, rounded down.
fn share_of(extent: u32, ratio: u32) -> (part: u32)
    requires
        ratio <= RATIO_SCALE,
    ensures
        part == Rect::share(extent, ratio),
        part <= extent,
{
    assert(0 <= extent * ratio <= extent * 1000) by (nonlinear_arith)
        requires
            0 <= ratio <= 1000,
            extent >= 0,
    ;
    let wide: u64 = extent as u64 * ratio as u64;
    (wide / 1000) as u32
}

/// `ratio` moved by `delta` and held between a tenth and nine tenths.
pub open spec fn nudged_ratio(ratio: u32, delta: int) -> u32 {
    if ratio + delta < MIN_RATIO {
        MIN_RATIO
    } else if ratio + delta > MAX_RATIO {
        MAX_RATIO
    } else {
        (ratio + delta) as u32
    }
}

/// `ratio` moved by `delta` and held between a tenth and nine tenths.
fn nudge(ratio: u32, delta: i32) -> (moved: u32)
    ensures
        moved == nudged_ratio(ratio, delta as int),
        MIN_RATIO <= moved <= MAX_RATIO,
{
    let sum: i64 = ratio as i64 + delta as i64;
    if sum < 100 {
        100
    } else if sum > 900 {
        900
    } else {
        sum as u32
    }
}

/// The layout of the panes of a window.
#[derive(Debug, PartialEq, Eq)]
pub enum Layout {
    /// One pane, named by its id.
    Leaf(u64),
    /// Two layouts side by side; `ratio` thousandths of the width go to
    /// `left`.
    HSplit { left: Box<Layout>, right: Box<Layout>, ratio: u32 },
    /// Two layouts one above the other; `ratio` thousandths of the height
    /// go to `top`.
    VSplit { top: Box<Layout>, bottom: Box<Layout>, ratio: u32 },
}

impl Layout {
    /// Every ratio of the tree lies between a tenth and nine tenths.
    pub open spec fn wf(self) -> bool
        decreases self,
    {
        match self {
            Layout::Leaf(_) => true,
            Layout::HSplit { left, right, ratio } => {
                &&& MIN_RATIO <= ratio <= MAX_RATIO
                &&& left.wf()
                &&& right.wf()
            },
            Layout::VSplit { top, bottom, ratio } => {
                &&& MIN_RATIO <= ratio <= MAX_RATIO
                &&& top.wf()
                &&& bottom.wf()
            },
        }
    }

    /// The ids of the leaves, depth first, the first child before the
    /// second.
    pub open spec fn leaf_ids(self) -> Seq<u64>
        decreases self,
    {
        match self {
            Layout::Leaf(id) => seq![id],
            Layout::HSplit { left, right, .. } => left.leaf_ids() + right.leaf_ids(),
            Layout::VSplit { top, bottom, .. } => top.leaf_ids() + bottom.leaf_ids(),
        }
    }

    /// The rectangle of each leaf when the tree fills `rect`, in the order
    /// of [`Layout::leaf_ids`].
    pub open spec fn rects(self, rect: Rect) -> Seq<(u64, Rect)>
        decreases self,
    {
        match self {
            Layout::Leaf(id) => seq![(id, rect)],
            Layout::HSplit { left, right, ratio } => left.rects(rect.left_part(ratio))
                + right.rects(rect.right_part(ratio)),
            Layout::VSplit { top, bottom, ratio } => top.rects(rect.top_part(ratio))
                + bottom.rects(rect.bottom_part(ratio)),
        }
    }

    /// The tree with each leaf `target` replaced by an even split of
    /// `target` and `new_id`, side by side (`horizontal`) or one above the
    /// other.
    pub open spec fn with_split(self, target: u64, new_id: u64, horizontal: bool) -> Layout
        decreases self,
    {
        match self {
            Layout::Leaf(id) => if id == target {
                if horizontal {
                    Layout::HSplit {
                        left: Box::new(Layout::Leaf(target)),
                        right: Box::new(Layout::Leaf(new_id)),
                        ratio: EVEN_RATIO,
                    }
                } else {
                    Layout::VSplit {
                        top: Box::new(Layout::Leaf(target)),
                        bottom: Box::new(Layout::Leaf(new_id)),
                        ratio: EVEN_RATIO,
                    }
                }
            } else {
                self
            },
            Layout::HSplit { left, right, ratio } => Layout::HSplit {
                left: Box::new(left.with_split(target, new_id, horizontal)),
                right: Box::new(right.with_split(target, new_id, horizontal)),
                ratio,
            },
            Layout::VSplit { top, bottom, ratio } => Layout::VSplit {
                top: Box::new(top.with_split(target, new_id, horizontal)),
                bottom: Box::new(bottom.with_split(target, new_id, horizontal)),
                ratio,
            },
        }
    }

    /// The tree without the leaves `target`: a split that loses one child
    /// becomes the other child, and a tree that loses every leaf is `None`.
    pub open spec fn without(self, target: u64) -> Option<Layout>
        decreases self,
    {
        match self {
            Layout::Leaf(id) => if id == target {
                None
            } else {
                Some(self)
            },
            Layout::HSplit { left, right, ratio } => match (
                left.without(target),
                right.without(target),
            ) {
                (None, None) => None,
                (None, Some(r)) => Some(r),
                (Some(l), None) => Some(l),
                (Some(l), Some(r)) => Some(
                    Layout::HSplit { left: Box::new(l), right: Box::new(r), ratio },
                ),
            },
            Layout::VSplit { top, bottom, ratio } => match (
                top.without(target),
                bottom.without(target),
            ) {
                (None, None) => None,
                (None, Some(b)) => Some(b),
                (Some(t), None) => Some(t),
                (Some(t), Some(b)) => Some(
                    Layout::VSplit { top: Box::new(t), bottom: Box::new(b), ratio },
                ),
            },
        }
    }

    /// Whether the tree is the leaf `target`.
    pub open spec fn is_leaf(self, target: u64) -> bool {
        self == Layout::Leaf(target)
    }

    /// The tree with the ratio nudged of each innermost split that has the
    /// leaf `target` as a child: a split side by side moves by `h_delta`
    /// thousandths, a split one above the other by `v_delta`, and the ratio
    /// stays between a tenth and nine tenths.
    pub open spec fn nudged(self, target: u64, h_delta: int, v_delta: int) -> Layout
        decreases self,
    {
        match self {
            Layout::Leaf(_) => self,
            Layout::HSplit { left, right, ratio } => if left.is_leaf(target) || right.is_leaf(
                target,
            ) {
                Layout::HSplit { left, right, ratio: nudged_ratio(ratio, h_delta) }
            } else {
                Layout::HSplit {
                    left: Box::new(left.nudged(target, h_delta, v_delta)),
                    right: Box::new(right.nudged(target, h_delta, v_delta)),
                    ratio,
                }
            },
            Layout::VSplit { top, bottom, ratio } => if top.is_leaf(target) || bottom.is_leaf(
                target,
            ) {
                Layout::VSplit { top, bottom, ratio: nudged_ratio(ratio, v_delta) }
            } else {
                Layout::VSplit {
                    top: Box::new(top.nudged(target, h_delta, v_delta)),
                    bottom: Box::new(bottom.nudged(target, h_delta, v_delta)),
                    ratio,
                }
            },
        }
    }

    /// The rectangle of each leaf when the tree fills `rect`: a split side
    /// by side gives its first child the share `ratio` of the width,
    /// rounded down to whole pixels, and the second child the rest; a split
    /// one above the other does so with the height.
    pub fn compute_rects(&self, rect: Rect) -> (rects: Vec<(u64, Rect)>)
        requires
            self.wf(),
            rect.wf(),
        ensures
            rects@ == self.rects(rect),
        decreases self,
    {
        match self {
            Layout::Leaf(id) => {
                let mut rects: Vec<(u64, Rect)> = Vec::new();
                rects.push((*id, rect));
                assert(rects@ =~= seq![(*id, rect)]);
                rects
            },
            Layout::HSplit { left, right, ratio } => {
                let left_w = share_of(rect.width, *ratio);
                let left_rect = Rect::new(rect.x, rect.y, left_w, rect.height);
                let right_rect = Rect::new(
                    rect.x + left_w,
                    rect.y,
                    rect.width - left_w,
                    rect.height,
                );
                let mut rects = left.compute_rects(left_rect);
                let mut rest = right.compute_rects(right_rect);
                rects.append(&mut rest);
                rects
            },
            Layout::VSplit { top, bottom, ratio } => {
                let top_h = share_of(rect.height, *ratio);
                let top_rect = Rect::new(rect.x, rect.y, rect.width, top_h);
                let bottom_rect = Rect::new(
                    rect.x,
                    rect.y + top_h,
                    rect.width,
                    rect.height - top_h,
                );
                let mut rects = top.compute_rects(top_rect);
                let mut rest = bottom.compute_rects(bottom_rect);
                rects.append(&mut rest);
                rects
            },
        }
    }

    /// The ids of the panes, depth first.
    pub fn pane_ids(&self) -> (ids: Vec<u64>)
        ensures
            ids@ == self.leaf_ids(),
        decreases self,
    {
        match self {
            Layout::Leaf(id) => {
                let mut ids: Vec<u64> = Vec::new();
                ids.push(*id);
                assert(ids@ =~= seq![*id]);
                ids
            },
            Layout::HSplit { left, right, .. } => {
                let mut ids = left.pane_ids();
                let mut rest = right.pane_ids();
                ids.append(&mut rest);
                ids
            },
            Layout::VSplit { top, bottom, .. } => {
                let mut ids = top.pane_ids();
                let mut rest = bottom.pane_ids();
                ids.append(&mut rest);
                ids
            },
        }
    }

    /// Replaces the leaf `target_id` with an even split of `target_id` and
    /// `new_id`, side by side. A tree without that leaf stays as it is.
    pub fn split_h(self, target_id: u64, new_id: u64) -> (layout: Self)
        ensures
            layout == self.with_split(target_id, new_id, true),
        decreases self,
    {
        match self {
            Layout::Leaf(id) => {
                if id == target_id {
                    Layout::HSplit {
                        left: Box::new(Layout::Leaf(target_id)),
                        right: Box::new(Layout::Leaf(new_id)),
                        ratio: EVEN_RATIO,
                    }
                } else {
                    Layout::Leaf(id)
                }
            },
            Layout::HSplit { left, right, ratio } => Layout::HSplit {
                left: Box::new((*left).split_h(target_id, new_id)),
                right: Box::new((*right).split_h(target_id, new_id)),
                ratio,
            },
            Layout::VSplit { top, bottom, ratio } => Layout::VSplit {
                top: Box::new((*top).split_h(target_id, new_id)),
                bottom: Box::new((*bottom).split_h(target_id, new_id)),
                ratio,
            },
        }
    }

    /// Replaces the leaf `target_id` with an even split of `target_id` and
    /// `new_id`, one above the other. A tree without that leaf stays as it
    /// is.
    pub fn split_v(self, target_id: u64, new_id: u64) -> (layout: Self)
        ensures
            layout == self.with_split(target_id, new_id, false),
        decreases self,
    {
        match self {
            Layout::Leaf(id) => {
                if id == target_id {
                    Layout::VSplit {
                        top: Box::new(Layout::Leaf(target_id)),
                        bottom: Box::new(Layout::Leaf(new_id)),
                        ratio: EVEN_RATIO,
                    }
                } else {
                    Layout::Leaf(id)
                }
            },
            Layout::HSplit { left, right, ratio } => Layout::HSplit {
                left: Box::new((*left).split_v(target_id, new_id)),
                right: Box::new((*right).split_v(target_id, new_id)),
                ratio,
            },
            Layout::VSplit { top, bottom, ratio } => Layout::VSplit {
                top: Box::new((*top).split_v(target_id, new_id)),
                bottom: Box::new((*bottom).split_v(target_id, new_id)),
                ratio,
            },
        }
    }

    /// Whether the tree has a leaf `target_id`.
    pub fn contains(&self, target_id: u64) -> (found: bool)
        ensures
            found == self.leaf_ids().contains(target_id),
        decreases self,
    {
        match self {
            Layout::Leaf(id) => {
                assert(seq![*id][0] == *id);
                *id == target_id
            },
            Layout::HSplit { left, right, .. } => {
                let found = left.contains(target_id) || right.contains(target_id);
                proof {
                    lemma_concat_contains(left.leaf_ids(), right.leaf_ids(), target_id);
                }
                found
            },
            Layout::VSplit { top, bottom, .. } => {
                let found = top.contains(target_id) || bottom.contains(target_id);
                proof {
                    lemma_concat_contains(top.leaf_ids(), bottom.leaf_ids(), target_id);
                }
                found
            },
        }
    }

    /// Removes the leaf `target_id`. The split that held it becomes its
    /// other child; a tree that was that leaf alone is `None`.
    pub fn remove(self, target_id: u64) -> (layout: Option<Self>)
        ensures
            layout == self.without(target_id),
        decreases self,
    {
        match self {
            Layout::Leaf(id) => {
                if id == target_id {
                    None
                } else {
                    Some(Layout::Leaf(id))
                }
            },
            Layout::HSplit { left, right, ratio } => {
                match ((*left).remove(target_id), (*right).remove(target_id)) {
                    (None, None) => None,
                    (None, Some(r)) => Some(r),
                    (Some(l), None) => Some(l),
                    (Some(l), Some(r)) => Some(
                        Layout::HSplit { left: Box::new(l), right: Box::new(r), ratio },
                    ),
                }
            },
            Layout::VSplit { top, bottom, ratio } => {
                match ((*top).remove(target_id), (*bottom).remove(target_id)) {
                    (None, None) => None,
                    (None, Some(b)) => Some(b),
                    (Some(t), None) => Some(t),
                    (Some(t), Some(b)) => Some(
                        Layout::VSplit { top: Box::new(t), bottom: Box::new(b), ratio },
                    ),
                }
            },
        }
    }

    /// The id of the first leaf, depth first.
    pub fn first_leaf(&self) -> (id: u64)
        ensures
            self.leaf_ids().len() >= 1,
            id == self.leaf_ids()[0],
        decreases self,
    {
        match self {
            Layout::Leaf(id) => *id,
            Layout::HSplit { left, .. } => left.first_leaf(),
            Layout::VSplit { top, .. } => top.first_leaf(),
        }
    }

    /// Whether the tree is the leaf `target_id`.
    fn is_leaf_with(&self, target_id: u64) -> (b: bool)
        ensures
            b == self.is_leaf(target_id),
    {
        match self {
            Layout::Leaf(id) => *id == target_id,
            _ => false,
        }
    }
}

/// An element of a concatenation is an element of one of its parts.
pub proof fn lemma_concat_contains(a: Seq<u64>, b: Seq<u64>, x: u64)
    ensures
        (a + b).contains(x) <==> a.contains(x) || b.contains(x),
{
    if a.contains(x) {
        let i = choose|i: int| 0 <= i < a.len() && a[i] == x;
        assert((a + b)[i] == x);
    }
    if b.contains(x) {
        let i = choose|i: int| 0 <= i < b.len() && b[i] == x;
        assert((a + b)[a.len() + i] == x);
    }
    if (a + b).contains(x) {
        let i = choose|i: int| 0 <= i < (a + b).len() && (a + b)[i] == x;
        if i < a.len() {
            assert(a[i] == x);
        } else {
            assert(b[i - a.len()] == x);
        }
    }
}

/// A concatenation holds nothing twice exactly if neither part does and
/// the parts share no element.
pub proof fn lemma_concat_no_duplicates(a: Seq<u64>, b: Seq<u64>)
    ensures
        (a + b).no_duplicates() <==> a.no_duplicates() && b.no_duplicates() && forall|x: u64|
            !(a.contains(x) && b.contains(x)),
{
    let c = a + b;
    if c.no_duplicates() {
        assert forall|i: int, j: int| 0 <= i < a.len() && 0 <= j < a.len() && i != j implies a[i]
            != a[j] by {
            assert(c[i] == a[i] && c[j] == a[j]);
        }
        assert forall|i: int, j: int| 0 <= i < b.len() && 0 <= j < b.len() && i != j implies b[i]
            != b[j] by {
            assert(c[a.len() + i] == b[i] && c[a.len() + j] == b[j]);
        }
        assert forall|x: u64| !(a.contains(x) && b.contains(x)) by {
            if a.contains(x) && b.contains(x) {
                let i = choose|i: int| 0 <= i < a.len() && a[i] == x;
                let j = choose|j: int| 0 <= j < b.len() && b[j] == x;
                assert(c[i] == x && c[a.len() + j] == x);
            }
        }
    }
    if a.no_duplicates() && b.no_duplicates() && forall|x: u64| !(a.contains(x) && b.contains(x)) {
        assert forall|i: int, j: int| 0 <= i < c.len() && 0 <= j < c.len() && i != j implies c[i]
            != c[j] by {
            if i < a.len() && j >= a.len() {
                assert(a.contains(a[i]) && b.contains(b[j - a.len()]));
            }
            if j < a.len() && i >= a.len() {
                assert(a.contains(a[j]) && b.contains(b[i - a.len()]));
            }
        }
    }
}

impl Layout {
    /// Nudges the ratio of the innermost split that has the leaf
    /// `target_id` as a child: a split side by side by `h_delta`
    /// thousandths, a split one above the other by `v_delta`. The ratio
    /// stays between a tenth and nine tenths.
    pub fn nudge_ratio_for(&mut self, target_id: u64, h_delta: i32, v_delta: i32)
        ensures
            *final(self) == old(self).nudged(target_id, h_delta as int, v_delta as int),
        decreases *old(self),
    {
        let mut taken = Layout::Leaf(0);
        std::mem::swap(self, &mut taken);
        *self = taken.into_nudged(target_id, h_delta, v_delta);
    }

    /// The tree with the ratio nudged, see [`Layout::nudged`].
    fn into_nudged(self, target_id: u64, h_delta: i32, v_delta: i32) -> (layout: Self)
        ensures
            layout == self.nudged(target_id, h_delta as int, v_delta as int),
        decreases self,
    {
        match self {
            Layout::Leaf(id) => Layout::Leaf(id),
            Layout::HSplit { left, right, ratio } => {
                if left.is_leaf_with(target_id) || right.is_leaf_with(target_id) {
                    Layout::HSplit { left, right, ratio: nudge(ratio, h_delta) }
                } else {
                    Layout::HSplit {
                        left: Box::new((*left).into_nudged(target_id, h_delta, v_delta)),
                        right: Box::new((*right).into_nudged(target_id, h_delta, v_delta)),
                        ratio,
                    }
                }
            },
            Layout::VSplit { top, bottom, ratio } => {
                if top.is_leaf_with(target_id) || bottom.is_leaf_with(target_id) {
                    Layout::VSplit { top, bottom, ratio: nudge(ratio, v_delta) }
                } else {
                    Layout::VSplit {
                        top: Box::new((*top).into_nudged(target_id, h_delta, v_delta)),
                        bottom: Box::new((*bottom).into_nudged(target_id, h_delta, v_delta)),
                        ratio,
                    }
                }
            },
        }
    }

    /// A split adds the new id behind the target and nothing else: the
    /// leaves of the new tree are those of the old one and, where the old
    /// tree had the target, the new id. Ratios stay in range, and a tree
    /// that held no id twice, and not the new id, holds no id twice.
    pub proof fn lemma_with_split(self, target: u64, new_id: u64, horizontal: bool)
        ensures
            forall|x: u64|
                self.with_split(target, new_id, horizontal).leaf_ids().contains(x) <==> (
                self.leaf_ids().contains(x) || (x == new_id && self.leaf_ids().contains(target))),
            self.wf() ==> self.with_split(target, new_id, horizontal).wf(),
            self.leaf_ids().no_duplicates() && !self.leaf_ids().contains(new_id)
                ==> self.with_split(target, new_id, horizontal).leaf_ids().no_duplicates(),
            !self.leaf_ids().contains(target) ==> self.with_split(target, new_id, horizontal)
                == self,
        decreases self,
    {
        let after = self.with_split(target, new_id, horizontal);
        match self {
            Layout::Leaf(id) => {
                reveal_with_fuel(Layout::leaf_ids, 3);
                reveal_with_fuel(Layout::wf, 3);
                lemma_singleton_contains(id);
                if id == target {
                    assert(after.leaf_ids() =~= seq![target] + seq![new_id]);
                    lemma_singleton_contains(target);
                    lemma_singleton_contains(new_id);
                    assert forall|x: u64|
                        after.leaf_ids().contains(x) <==> (x == target || x == new_id) by {
                        lemma_concat_contains(seq![target], seq![new_id], x);
                    }
                    lemma_concat_no_duplicates(seq![target], seq![new_id]);
                }
            },
            Layout::HSplit { left, right, ratio } => {
                left.lemma_with_split(target, new_id, horizontal);
                right.lemma_with_split(target, new_id, horizontal);
                let l2 = left.with_split(target, new_id, horizontal);
                let r2 = right.with_split(target, new_id, horizontal);
                lemma_concat_contains(left.leaf_ids(), right.leaf_ids(), target);
                lemma_split_children(
                    left.leaf_ids(),
                    right.leaf_ids(),
                    l2.leaf_ids(),
                    r2.leaf_ids(),
                    target,
                    new_id,
                );
            },
            Layout::VSplit { top, bottom, ratio } => {
                top.lemma_with_split(target, new_id, horizontal);
                bottom.lemma_with_split(target, new_id, horizontal);
                let t2 = top.with_split(target, new_id, horizontal);
                let b2 = bottom.with_split(target, new_id, horizontal);
                lemma_concat_contains(top.leaf_ids(), bottom.leaf_ids(), target);
                lemma_split_children(
                    top.leaf_ids(),
                    bottom.leaf_ids(),
                    t2.leaf_ids(),
                    b2.leaf_ids(),
                    target,
                    new_id,
                );
            },
        }
    }

    /// A removal takes the target away and nothing else: the leaves of the
    /// tree that is left are those of the old one but the target, and the
    /// tree is gone only if it had no other leaf. Ratios stay in range, and
    /// a tree that held no id twice still holds none twice.
    pub proof fn lemma_without(self, target: u64)
        ensures
            match self.without(target) {
                Some(rest) => {
                    &&& forall|x: u64|
                        rest.leaf_ids().contains(x) <==> (self.leaf_ids().contains(x) && x
                            != target)
                    &&& (self.wf() ==> rest.wf())
                    &&& (self.leaf_ids().no_duplicates() ==> rest.leaf_ids().no_duplicates())
                    &&& (!self.leaf_ids().contains(target) ==> rest == self)
                },
                None => self.leaf_ids().contains(target) && forall|x: u64|
                    self.leaf_ids().contains(x) ==> x == target,
            },
        decreases self,
    {
        match self {
            Layout::Leaf(id) => {
                lemma_singleton_contains(id);
            },
            Layout::HSplit { left, right, ratio } => {
                left.lemma_without(target);
                right.lemma_without(target);
                lemma_without_children(
                    left.leaf_ids(),
                    right.leaf_ids(),
                    ids_without(*left, target),
                    ids_without(*right, target),
                    target,
                );
            },
            Layout::VSplit { top, bottom, ratio } => {
                top.lemma_without(target);
                bottom.lemma_without(target);
                lemma_without_children(
                    top.leaf_ids(),
                    bottom.leaf_ids(),
                    ids_without(*top, target),
                    ids_without(*bottom, target),
                    target,
                );
            },
        }
    }

    /// A nudge moves ratios and nothing else, and leaves every ratio
    /// between a tenth and nine tenths.
    pub proof fn lemma_nudged(self, target: u64, h_delta: int, v_delta: int)
        ensures
            self.nudged(target, h_delta, v_delta).leaf_ids() == self.leaf_ids(),
            self.wf() ==> self.nudged(target, h_delta, v_delta).wf(),
        decreases self,
    {
        match self {
            Layout::Leaf(_) => {},
            Layout::HSplit { left, right, ratio } => {
                left.lemma_nudged(target, h_delta, v_delta);
                right.lemma_nudged(target, h_delta, v_delta);
            },
            Layout::VSplit { top, bottom, ratio } => {
                top.lemma_nudged(target, h_delta, v_delta);
                bottom.lemma_nudged(target, h_delta, v_delta);
            },
        }
    }

    /// A tree has a leaf.
    pub proof fn lemma_has_leaf(self)
        ensures
            self.leaf_ids().len() >= 1,
        decreases self,
    {
        match self {
            Layout::Leaf(_) => {},
            Layout::HSplit { left, right, .. } => {
                left.lemma_has_leaf();
            },
            Layout::VSplit { top, bottom, .. } => {
                top.lemma_has_leaf();
            },
        }
    }

    /// The rectangles come in the order of the leaves.
    pub proof fn lemma_rects_ids(self, rect: Rect)
        ensures
            self.rects(rect).len() == self.leaf_ids().len(),
            forall|i: int|
                0 <= i < self.leaf_ids().len() ==> (#[trigger] self.rects(rect)[i]).0
                    == self.leaf_ids()[i],
        decreases self,
    {
        match self {
            Layout::Leaf(_) => {},
            Layout::HSplit { left, right, ratio } => {
                left.lemma_rects_ids(rect.left_part(ratio));
                right.lemma_rects_ids(rect.right_part(ratio));
            },
            Layout::VSplit { top, bottom, ratio } => {
                top.lemma_rects_ids(rect.top_part(ratio));
                bottom.lemma_rects_ids(rect.bottom_part(ratio));
            },
        }
    }
}

/// A sequence of one element holds that element and no other.
pub proof fn lemma_singleton_contains(id: u64)
    ensures
        forall|x: u64| seq![id].contains(x) <==> x == id,
        seq![id].no_duplicates(),
{
    assert(seq![id][0] == id);
}

/// The leaves that a removal leaves of a tree.
pub open spec fn ids_without(layout: Layout, target: u64) -> Seq<u64> {
    match layout.without(target) {
        Some(rest) => rest.leaf_ids(),
        None => Seq::empty(),
    }
}

/// The step of [`Layout::lemma_with_split`] at a split node.
proof fn lemma_split_children(
    a: Seq<u64>,
    b: Seq<u64>,
    a2: Seq<u64>,
    b2: Seq<u64>,
    target: u64,
    new_id: u64,
)
    requires
        forall|x: u64| a2.contains(x) <==> (a.contains(x) || (x == new_id && a.contains(target))),
        forall|x: u64| b2.contains(x) <==> (b.contains(x) || (x == new_id && b.contains(target))),
        a.no_duplicates() && !a.contains(new_id) ==> a2.no_duplicates(),
        b.no_duplicates() && !b.contains(new_id) ==> b2.no_duplicates(),
    ensures
        forall|x: u64|
            (a2 + b2).contains(x) <==> ((a + b).contains(x) || (x == new_id && (a + b).contains(
                target,
            ))),
        (a + b).no_duplicates() && !(a + b).contains(new_id) ==> (a2 + b2).no_duplicates(),
{
    assert forall|x: u64|
        (a2 + b2).contains(x) <==> ((a + b).contains(x) || (x == new_id && (a + b).contains(
            target,
        ))) by {
        lemma_concat_contains(a2, b2, x);
        lemma_concat_contains(a, b, x);
        lemma_concat_contains(a, b, target);
    }
    lemma_concat_contains(a, b, new_id);
    lemma_concat_contains(a, b, target);
    lemma_concat_no_duplicates(a, b);
    lemma_concat_no_duplicates(a2, b2);
    if (a + b).no_duplicates() && !(a + b).contains(new_id) {
        assert(!(a.contains(target) && b.contains(target)));
    }
}

/// The step of [`Layout::lemma_without`] at a split node: what holds of the
/// leaves of the children holds of their concatenation.
proof fn lemma_without_children(a: Seq<u64>, b: Seq<u64>, a2: Seq<u64>, b2: Seq<u64>, target: u64)
    requires
        forall|x: u64| a2.contains(x) <==> (a.contains(x) && x != target),
        forall|x: u64| b2.contains(x) <==> (b.contains(x) && x != target),
        a.no_duplicates() ==> a2.no_duplicates(),
        b.no_duplicates() ==> b2.no_duplicates(),
    ensures
        forall|x: u64| (a2 + b2).contains(x) <==> ((a + b).contains(x) && x != target),
        (a + b).no_duplicates() ==> (a2 + b2).no_duplicates(),
        (a + b).contains(target) <==> a.contains(target) || b.contains(target),
        forall|x: u64| (a + b).contains(x) <==> a.contains(x) || b.contains(x),
        a2.len() == 0 ==> a2 + b2 == b2,
        b2.len() == 0 ==> a2 + b2 == a2,
{
    assert forall|x: u64| (a2 + b2).contains(x) <==> ((a + b).contains(x) && x != target) by {
        lemma_concat_contains(a2, b2, x);
        lemma_concat_contains(a, b, x);
    }
    assert forall|x: u64| (a + b).contains(x) <==> a.contains(x) || b.contains(x) by {
        lemma_concat_contains(a, b, x);
    }
    lemma_concat_no_duplicates(a, b);
    lemma_concat_no_duplicates(a2, b2);
    if a2.len() == 0 {
        assert(a2 + b2 =~= b2);
    }
    if b2.len() == 0 {
        assert(a2 + b2 =~= a2);
    }
}

} // verus!
