use smooth_terminal::pane::layout::{Layout, Rect, EVEN_RATIO, MAX_RATIO, MIN_RATIO, RATIO_SCALE};

/// A share of the whole in thousandths.
fn per_mille(share: f32) -> u32 {
    (share * RATIO_SCALE as f32).round() as u32
}

/// A ratio in thousandths as a share of the whole.
fn fraction(ratio: u32) -> f32 {
    ratio as f32 / RATIO_SCALE as f32
}

fn approx_eq(a: f32, b: f32) -> bool {
    (a - b).abs() < 0.001
}

#[test]
fn leaf_compute_rects_returns_input() {
    let r = Rect::new(10, 20, 100, 200);
    let result = Layout::Leaf(0).compute_rects(r);
    assert_eq!(result.len(), 1);
    assert_eq!(result[0].0, 0);
    assert_eq!(result[0].1, r);
}

#[test]
fn hsplit_divides_width() {
    let layout = Layout::HSplit {
        left: Box::new(Layout::Leaf(0)),
        right: Box::new(Layout::Leaf(1)),
        ratio: per_mille(0.5),
    };
    let rects = layout.compute_rects(Rect::new(0, 0, 100, 50));
    assert_eq!(rects.len(), 2);
    assert!(approx_eq(rects[0].1.width as f32, 50.0));
    assert!(approx_eq(rects[1].1.width as f32, 50.0));
    assert!(approx_eq(rects[1].1.x as f32, 50.0));
    // Heights should be equal
    assert!(approx_eq(rects[0].1.height as f32, 50.0));
    assert!(approx_eq(rects[1].1.height as f32, 50.0));
}

#[test]
fn vsplit_divides_height() {
    let layout = Layout::VSplit {
        top: Box::new(Layout::Leaf(0)),
        bottom: Box::new(Layout::Leaf(1)),
        ratio: per_mille(0.5),
    };
    let rects = layout.compute_rects(Rect::new(0, 0, 100, 200));
    assert_eq!(rects.len(), 2);
    assert!(approx_eq(rects[0].1.height as f32, 100.0));
    assert!(approx_eq(rects[1].1.height as f32, 100.0));
    assert!(approx_eq(rects[1].1.y as f32, 100.0));
}

#[test]
fn nested_splits() {
    // HSplit { VSplit(0,1), Leaf(2) }
    let layout = Layout::HSplit {
        left: Box::new(Layout::VSplit {
            top: Box::new(Layout::Leaf(0)),
            bottom: Box::new(Layout::Leaf(1)),
            ratio: per_mille(0.5),
        }),
        right: Box::new(Layout::Leaf(2)),
        ratio: per_mille(0.5),
    };
    let rects = layout.compute_rects(Rect::new(0, 0, 200, 200));
    assert_eq!(rects.len(), 3);
    // Pane 0: top-left quadrant
    assert!(approx_eq(rects[0].1.width as f32, 100.0));
    assert!(approx_eq(rects[0].1.height as f32, 100.0));
    // Pane 1: bottom-left quadrant
    assert!(approx_eq(rects[1].1.y as f32, 100.0));
    // Pane 2: right half
    assert!(approx_eq(rects[2].1.x as f32, 100.0));
    assert!(approx_eq(rects[2].1.width as f32, 100.0));
    assert!(approx_eq(rects[2].1.height as f32, 200.0));
}

#[test]
fn pane_ids_collects_all() {
    let layout = Layout::HSplit {
        left: Box::new(Layout::Leaf(0)),
        right: Box::new(Layout::VSplit {
            top: Box::new(Layout::Leaf(1)),
            bottom: Box::new(Layout::Leaf(2)),
            ratio: per_mille(0.5),
        }),
        ratio: per_mille(0.5),
    };
    let mut ids = layout.pane_ids();
    ids.sort();
    assert_eq!(ids, vec![0, 1, 2]);
}

#[test]
fn split_h_creates_hsplit() {
    let layout = Layout::Leaf(0).split_h(0, 1);
    match &layout {
        Layout::HSplit { left, right, ratio } => {
            assert!(matches!(**left, Layout::Leaf(0)));
            assert!(matches!(**right, Layout::Leaf(1)));
            assert!(approx_eq(fraction(*ratio), 0.5));
        }
        _ => panic!("expected HSplit"),
    }
}

#[test]
fn split_v_creates_vsplit() {
    let layout = Layout::Leaf(0).split_v(0, 1);
    match &layout {
        Layout::VSplit { top, bottom, ratio } => {
            assert!(matches!(**top, Layout::Leaf(0)));
            assert!(matches!(**bottom, Layout::Leaf(1)));
            assert!(approx_eq(fraction(*ratio), 0.5));
        }
        _ => panic!("expected VSplit"),
    }
}

#[test]
fn split_non_matching_id_unchanged() {
    let layout = Layout::Leaf(0).split_h(99, 1);
    assert!(matches!(layout, Layout::Leaf(0)));
}

#[test]
fn contains_present_and_absent() {
    let layout = Layout::HSplit {
        left: Box::new(Layout::Leaf(0)),
        right: Box::new(Layout::Leaf(1)),
        ratio: per_mille(0.5),
    };
    assert!(layout.contains(0));
    assert!(layout.contains(1));
    assert!(!layout.contains(99));
}

#[test]
fn remove_leaf_collapses_parent() {
    let layout = Layout::HSplit {
        left: Box::new(Layout::Leaf(0)),
        right: Box::new(Layout::Leaf(1)),
        ratio: per_mille(0.5),
    };
    let result = layout.remove(0).unwrap();
    assert!(matches!(result, Layout::Leaf(1)));
}

#[test]
fn remove_nonexistent_returns_unchanged() {
    let layout = Layout::Leaf(0);
    let result = layout.remove(99);
    assert!(matches!(result, Some(Layout::Leaf(0))));
}

#[test]
fn remove_only_leaf_returns_none() {
    let layout = Layout::Leaf(0);
    assert!(layout.remove(0).is_none());
}

#[test]
fn nudge_ratio_hsplit() {
    let mut layout = Layout::HSplit {
        left: Box::new(Layout::Leaf(0)),
        right: Box::new(Layout::Leaf(1)),
        ratio: per_mille(0.5),
    };
    layout.nudge_ratio_for(0, per_mille(0.1) as i32, 0);
    match &layout {
        Layout::HSplit { ratio, .. } => assert!(approx_eq(fraction(*ratio), 0.6)),
        _ => panic!("expected HSplit"),
    }
}

#[test]
fn nudge_ratio_clamps_low() {
    let mut layout = Layout::HSplit {
        left: Box::new(Layout::Leaf(0)),
        right: Box::new(Layout::Leaf(1)),
        ratio: per_mille(0.15),
    };
    layout.nudge_ratio_for(0, -(per_mille(0.1) as i32), 0);
    match &layout {
        Layout::HSplit { ratio, .. } => assert!(approx_eq(fraction(*ratio), 0.1)),
        _ => panic!("expected HSplit"),
    }
}

#[test]
fn nudge_ratio_clamps_high() {
    let mut layout = Layout::HSplit {
        left: Box::new(Layout::Leaf(0)),
        right: Box::new(Layout::Leaf(1)),
        ratio: per_mille(0.85),
    };
    layout.nudge_ratio_for(0, per_mille(0.1) as i32, 0);
    match &layout {
        Layout::HSplit { ratio, .. } => assert!(approx_eq(fraction(*ratio), 0.9)),
        _ => panic!("expected HSplit"),
    }
}

// ── Further cases ───────────────────────────────────────────────────

fn hsplit(left: Layout, right: Layout, ratio: u32) -> Layout {
    Layout::HSplit { left: Box::new(left), right: Box::new(right), ratio }
}

fn vsplit(top: Layout, bottom: Layout, ratio: u32) -> Layout {
    Layout::VSplit { top: Box::new(top), bottom: Box::new(bottom), ratio }
}

#[test]
fn rects_round_down_and_leave_the_rest() {
    let layout = hsplit(Layout::Leaf(1), Layout::Leaf(2), 333);
    let rects = layout.compute_rects(Rect::new(10, 20, 101, 7));
    assert_eq!(rects, vec![(1, Rect::new(10, 20, 33, 7)), (2, Rect::new(43, 20, 68, 7))]);
    let layout = vsplit(Layout::Leaf(1), Layout::Leaf(2), 900);
    let rects = layout.compute_rects(Rect::new(0, 0, 5, 9));
    assert_eq!(rects, vec![(1, Rect::new(0, 0, 5, 8)), (2, Rect::new(0, 8, 5, 1))]);
    let wide = Rect::new(0, 0, u32::MAX, 1);
    let rects = hsplit(Layout::Leaf(1), Layout::Leaf(2), 500).compute_rects(wide);
    assert_eq!(rects[0].1.width, 2147483647);
    assert_eq!(rects[1].1, Rect::new(2147483647, 0, 2147483648, 1));
}

#[test]
fn pane_ids_are_depth_first() {
    let layout = hsplit(
        vsplit(Layout::Leaf(4), Layout::Leaf(2), 500),
        hsplit(Layout::Leaf(9), Layout::Leaf(1), 500),
        500,
    );
    assert_eq!(layout.pane_ids(), vec![4, 2, 9, 1]);
    assert_eq!(layout.first_leaf(), 4);
}

#[test]
fn split_inside_a_tree() {
    let layout = hsplit(Layout::Leaf(0), Layout::Leaf(1), 300).split_v(1, 2);
    assert_eq!(
        layout,
        hsplit(Layout::Leaf(0), vsplit(Layout::Leaf(1), Layout::Leaf(2), EVEN_RATIO), 300)
    );
    let layout = layout.split_h(0, 3);
    assert_eq!(layout.pane_ids(), vec![0, 3, 1, 2]);
}

#[test]
fn remove_inside_a_tree() {
    let layout = hsplit(Layout::Leaf(0), vsplit(Layout::Leaf(1), Layout::Leaf(2), 400), 300);
    assert_eq!(
        layout.remove(1),
        Some(hsplit(Layout::Leaf(0), Layout::Leaf(2), 300))
    );
    let layout = hsplit(Layout::Leaf(0), vsplit(Layout::Leaf(1), Layout::Leaf(2), 400), 300);
    assert_eq!(layout.remove(0), Some(vsplit(Layout::Leaf(1), Layout::Leaf(2), 400)));
}

#[test]
fn nudge_moves_the_innermost_split_only() {
    let mut layout = hsplit(Layout::Leaf(0), vsplit(Layout::Leaf(1), Layout::Leaf(2), 500), 500);
    layout.nudge_ratio_for(1, 50, -50);
    assert_eq!(
        layout,
        hsplit(Layout::Leaf(0), vsplit(Layout::Leaf(1), Layout::Leaf(2), 450), 500)
    );
    layout.nudge_ratio_for(0, 50, -50);
    assert_eq!(
        layout,
        hsplit(Layout::Leaf(0), vsplit(Layout::Leaf(1), Layout::Leaf(2), 450), 550)
    );
    layout.nudge_ratio_for(7, 50, 50);
    assert_eq!(
        layout,
        hsplit(Layout::Leaf(0), vsplit(Layout::Leaf(1), Layout::Leaf(2), 450), 550)
    );
}

#[test]
fn ratio_stays_in_range_after_many_nudges() {
    let mut layout = vsplit(Layout::Leaf(0), Layout::Leaf(1), EVEN_RATIO);
    for _ in 0..40 {
        layout.nudge_ratio_for(1, 0, 50);
    }
    assert_eq!(layout, vsplit(Layout::Leaf(0), Layout::Leaf(1), MAX_RATIO));
    for _ in 0..40 {
        layout.nudge_ratio_for(0, 0, -50);
    }
    assert_eq!(layout, vsplit(Layout::Leaf(0), Layout::Leaf(1), MIN_RATIO));
    layout.nudge_ratio_for(0, 0, i32::MAX);
    assert_eq!(layout, vsplit(Layout::Leaf(0), Layout::Leaf(1), MAX_RATIO));
    layout.nudge_ratio_for(0, 0, i32::MIN);
    assert_eq!(layout, vsplit(Layout::Leaf(0), Layout::Leaf(1), MIN_RATIO));
}
