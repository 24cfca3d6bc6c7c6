use smooth_terminal::pane::layout::{Layout, Rect, EVEN_RATIO};
use smooth_terminal::pane::{Direction, Pane, PaneTree};

fn hsplit(left: Layout, right: Layout, ratio: u32) -> Layout {
    Layout::HSplit { left: Box::new(left), right: Box::new(right), ratio }
}

fn vsplit(top: Layout, bottom: Layout, ratio: u32) -> Layout {
    Layout::VSplit { top: Box::new(top), bottom: Box::new(bottom), ratio }
}

fn ids(tree: &PaneTree) -> Vec<u64> {
    tree.panes.iter().map(|p| p.id).collect()
}

/// The invariant of the tree, checked at run time.
fn check(tree: &PaneTree) {
    let mut pane_ids = ids(tree);
    let mut leaves = tree.layout.as_ref().map(|l| l.pane_ids()).unwrap_or_default();
    pane_ids.sort();
    leaves.sort();
    assert_eq!(pane_ids, leaves);
    pane_ids.dedup();
    assert_eq!(pane_ids.len(), tree.panes.len());
    match tree.focused_id {
        Some(id) => assert!(pane_ids.contains(&id)),
        None => assert!(tree.panes.is_empty()),
    }
    assert!(pane_ids.iter().all(|id| *id < tree.next_id));
}

#[test]
fn split_and_close() {
    let window = Rect::new(0, 0, 100, 100);
    let mut tree = PaneTree::new(10, 10);
    assert_eq!(tree.layout, Some(Layout::Leaf(0)));
    assert_eq!(tree.focused_id, Some(0));
    assert_eq!(tree.split_horizontal(10, 10, window), Some(1));
    assert_eq!(tree.layout, Some(hsplit(Layout::Leaf(0), Layout::Leaf(1), EVEN_RATIO)));
    assert_eq!(tree.focused_id, Some(1));
    check(&tree);
    tree.close_pane(1);
    assert_eq!(tree.layout, Some(Layout::Leaf(0)));
    assert_eq!(tree.focused_id, Some(0));
    assert_eq!(ids(&tree), vec![0]);
    check(&tree);
}

#[test]
fn directional_focus() {
    let window = Rect::new(0, 0, 200, 200);
    let mut tree = PaneTree::new(10, 10);
    // A = 0 on the left, B = 1 above C = 2 on the right.
    assert_eq!(tree.split_horizontal(10, 10, window), Some(1));
    assert_eq!(tree.split_vertical(10, 10, window), Some(2));
    assert_eq!(
        tree.layout,
        Some(hsplit(Layout::Leaf(0), vsplit(Layout::Leaf(1), Layout::Leaf(2), 500), 500))
    );
    let rects = tree.layout.as_ref().unwrap().compute_rects(window);
    tree.focused_id = Some(0);
    tree.focus_direction(&rects, Direction::Right);
    assert_eq!(tree.focused_id, Some(1));
    tree.focus_direction(&rects, Direction::Down);
    assert_eq!(tree.focused_id, Some(2));
    tree.focus_direction(&rects, Direction::Down);
    assert_eq!(tree.focused_id, Some(2));
    tree.focus_direction(&rects, Direction::Left);
    assert_eq!(tree.focused_id, Some(0));
    tree.focus_direction(&rects, Direction::Up);
    assert_eq!(tree.focused_id, Some(0));
    tree.focused_id = Some(2);
    tree.focus_direction(&rects, Direction::Up);
    assert_eq!(tree.focused_id, Some(1));
    check(&tree);
}

#[test]
fn focus_ignores_rects_of_unknown_panes() {
    let mut tree = PaneTree::new(10, 10);
    let rects = vec![(0, Rect::new(0, 0, 100, 100)), (7, Rect::new(100, 0, 100, 100))];
    tree.focus_direction(&rects, Direction::Right);
    assert_eq!(tree.focused_id, Some(0));
    tree.focus_direction(&rects[1..], Direction::Right);
    assert_eq!(tree.focused_id, Some(0));
    check(&tree);
}

#[test]
fn split_sizes_the_new_grid_from_half_the_pane() {
    let window = Rect::new(0, 0, 1000, 600);
    let mut tree = PaneTree::new(80, 24);
    assert_eq!(tree.split_dims(true, 9, 20, window), (55, 30));
    assert_eq!(tree.split_dims(false, 9, 20, window), (111, 15));
    assert_eq!(tree.split_horizontal(9, 20, window), Some(1));
    let grid = tree.panes[1].terminal.grid();
    assert_eq!((grid.cols, grid.rows), (55, 30));
    // The focused pane is now the right half, 500 pixels wide.
    assert_eq!(tree.split_dims(false, 9, 20, window), (55, 15));
    assert_eq!(tree.split_vertical(9, 20, window), Some(2));
    let grid = tree.panes[2].terminal.grid();
    assert_eq!((grid.cols, grid.rows), (55, 15));
    // A pane too small for one cell still gets one.
    assert_eq!(tree.split_dims(true, 4000, 4000, window), (1, 1));
    check(&tree);
}

#[test]
fn split_without_a_pane_or_an_id_does_nothing() {
    let window = Rect::new(0, 0, 100, 100);
    let mut tree = PaneTree::new(10, 10);
    tree.close_focused();
    assert_eq!(tree.layout, None);
    assert_eq!(tree.focused_id, None);
    assert!(tree.panes.is_empty());
    assert_eq!(tree.split_horizontal(10, 10, window), None);
    assert_eq!(tree.split_vertical(10, 10, window), None);
    check(&tree);
    let mut tree = PaneTree::new(10, 10);
    tree.next_id = u64::MAX;
    assert_eq!(tree.split_horizontal(10, 10, window), None);
    assert_eq!(ids(&tree), vec![0]);
    assert_eq!(tree.layout, Some(Layout::Leaf(0)));
    check(&tree);
}

#[test]
fn closing_the_focused_pane_focuses_the_first_leaf() {
    let window = Rect::new(0, 0, 400, 400);
    let mut tree = PaneTree::new(10, 10);
    tree.split_horizontal(10, 10, window);
    tree.split_vertical(10, 10, window);
    tree.split_horizontal(10, 10, window);
    assert_eq!(tree.layout.as_ref().unwrap().pane_ids(), vec![0, 1, 2, 3]);
    assert_eq!(tree.focused_id, Some(3));
    tree.close_focused();
    assert_eq!(tree.focused_id, Some(0));
    assert_eq!(tree.layout.as_ref().unwrap().pane_ids(), vec![0, 1, 2]);
    check(&tree);
    tree.close_pane(0);
    assert_eq!(tree.focused_id, Some(1));
    assert_eq!(tree.layout, Some(vsplit(Layout::Leaf(1), Layout::Leaf(2), 500)));
    check(&tree);
    tree.close_pane(9);
    assert_eq!(ids(&tree), vec![1, 2]);
    tree.close_pane(2);
    assert_eq!(tree.focused_id, Some(1));
    check(&tree);
    // Ids are not used again.
    assert_eq!(tree.split_horizontal(10, 10, window), Some(4));
    check(&tree);
}

#[test]
fn focus_cycles_through_the_leaves() {
    let window = Rect::new(0, 0, 400, 400);
    let mut tree = PaneTree::new(10, 10);
    tree.split_horizontal(10, 10, window);
    tree.split_vertical(10, 10, window);
    assert_eq!(tree.focused_id, Some(2));
    tree.focus_next();
    assert_eq!(tree.focused_id, Some(0));
    tree.focus_next();
    assert_eq!(tree.focused_id, Some(1));
    tree.focus_prev();
    assert_eq!(tree.focused_id, Some(0));
    tree.focus_prev();
    assert_eq!(tree.focused_id, Some(2));
    check(&tree);
    let mut single = PaneTree::new(10, 10);
    single.focus_next();
    assert_eq!(single.focused_id, Some(0));
    single.focus_prev();
    assert_eq!(single.focused_id, Some(0));
}

#[test]
fn resize_focused_moves_by_a_twentieth() {
    let window = Rect::new(0, 0, 400, 400);
    let mut tree = PaneTree::new(10, 10);
    tree.split_horizontal(10, 10, window);
    tree.resize_focused(Direction::Right);
    assert_eq!(tree.layout, Some(hsplit(Layout::Leaf(0), Layout::Leaf(1), 550)));
    tree.resize_focused(Direction::Up);
    assert_eq!(tree.layout, Some(hsplit(Layout::Leaf(0), Layout::Leaf(1), 550)));
    for _ in 0..20 {
        tree.resize_focused(Direction::Left);
    }
    assert_eq!(tree.layout, Some(hsplit(Layout::Leaf(0), Layout::Leaf(1), 100)));
    for _ in 0..20 {
        tree.resize_focused(Direction::Right);
    }
    assert_eq!(tree.layout, Some(hsplit(Layout::Leaf(0), Layout::Leaf(1), 900)));
    check(&tree);
}

#[test]
fn resize_panes_fits_grids_to_rects() {
    let window = Rect::new(0, 0, 400, 300);
    let mut tree = PaneTree::new(10, 10);
    tree.split_horizontal(10, 10, window);
    let rects = tree.layout.as_ref().unwrap().compute_rects(window);
    let sizes = tree.resize_panes(&rects, 7, 13);
    assert_eq!(sizes, vec![(0, 28, 23), (1, 28, 23)]);
    for pane in &tree.panes {
        let grid = pane.terminal.grid();
        assert_eq!((grid.cols, grid.rows), (28, 23));
    }
    let sizes = tree.resize_panes(&[(1, Rect::new(0, 0, 3, 3)), (5, window)], 7, 13);
    assert_eq!(sizes, vec![(1, 1, 1)]);
    let grid = tree.panes[1].terminal.grid();
    assert_eq!((grid.cols, grid.rows), (1, 1));
    check(&tree);
}

#[test]
fn output_goes_to_the_pane_it_names() {
    let window = Rect::new(0, 0, 400, 300);
    let mut tree = PaneTree::new(10, 4);
    tree.split_horizontal(10, 10, window);
    tree.drain_all_pty_output(&vec![
        (1, vec![b"one".to_vec()]),
        (0, vec![b"ze".to_vec(), b"ro".to_vec()]),
        (8, vec![b"lost".to_vec()]),
    ]);
    let text = |pane: &Pane| -> String {
        pane.terminal.grid().cells[0].iter().map(|c| c.ch).filter(|c| *c != '\0').collect()
    };
    assert_eq!(text(&tree.panes[0]), "zero");
    assert_eq!(text(&tree.panes[1]), "one");
    assert_eq!(tree.focused_pane().map(|p| p.id), Some(1));
    assert_eq!(tree.find_pane(1), Some(1));
    assert_eq!(tree.find_pane(8), None);
    check(&tree);
}
