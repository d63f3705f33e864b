use asyncgit::ui::{calc_scroll_top, centered_rect_absolute, rect_inside, Rect, Size};

#[test]
fn scroll_top_keeps_visible_selection() {
    assert_eq!(calc_scroll_top(5, 10, 7), 5);
}

#[test]
fn scroll_top_follows_selection_below() {
    assert_eq!(calc_scroll_top(0, 10, 10), 1);
    assert_eq!(calc_scroll_top(0, 10, 25), 16);
}

#[test]
fn scroll_top_follows_selection_above() {
    assert_eq!(calc_scroll_top(20, 10, 3), 3);
}

#[test]
fn size_from_rect() {
    let s = Size::from(Rect { x: 1, y: 2, width: 30, height: 40 });
    assert_eq!(s, Size::new(30, 40));
}

#[test]
fn rect_inside_grows_to_min() {
    let r = rect_inside(Size::new(20, 10), Size::new(100, 50), Rect { x: 10, y: 10, width: 10, height: 4 });
    assert_eq!(r, Rect { x: 5, y: 7, width: 20, height: 10 });
}

#[test]
fn rect_inside_shrinks_to_max() {
    let r = rect_inside(Size::new(0, 0), Size::new(8, 6), Rect { x: 3, y: 4, width: 30, height: 40 });
    assert_eq!(r, Rect { x: 3, y: 4, width: 8, height: 6 });
}

#[test]
fn centered_absolute() {
    let r = centered_rect_absolute(20, 10, Rect { x: 0, y: 0, width: 100, height: 50 });
    assert_eq!(r, Rect { x: 40, y: 20, width: 20, height: 10 });
    let r = centered_rect_absolute(200, 10, Rect { x: 0, y: 0, width: 100, height: 50 });
    assert_eq!(r, Rect { x: 0, y: 20, width: 100, height: 10 });
}

#[test]
fn centered_absolute_clips_large_area() {
    let r = centered_rect_absolute(1000, 1000, Rect { x: 0, y: 0, width: 1000, height: 1000 });
    assert!((r.width as u32) * (r.height as u32) <= 65535);
}

#[test]
fn scroll_top_at_largest_selection() {
    assert_eq!(calc_scroll_top(0, 10, usize::MAX), usize::MAX - 9);
}
