use vstd::prelude::*;

verus! {

/// How far apart `a` and `b` are.
pub open spec fn dist(a: int, b: int) -> int {
    if a >= b { a - b } else { b - a }
}

/// The scroll position that brings `selection` into a window of `height` lines
/// whose first line is `top`.
pub open spec fn scroll_top_spec(top: int, height: int, selection: int) -> int {
    if top + height <= selection {
        selection - height + 1
    } else if top > selection {
        selection
    } else {
        top
    }
}

/// return the scroll position (line) necessary to have the `selection` in view if it is not already
pub fn calc_scroll_top(current_top: usize, height_in_lines: usize, selection: usize) -> (r: usize)
    requires
        current_top + height_in_lines <= usize::MAX,
        height_in_lines > 0 || selection < usize::MAX,
    ensures
        r == scroll_top_spec(current_top as int, height_in_lines as int, selection as int),
        height_in_lines > 0 ==> r <= selection < r + height_in_lines,
        height_in_lines > 0 ==> forall|t: int|
            t <= selection < t + height_in_lines ==> #[trigger] dist(r as int, current_top as int) <= dist(
                t,
                current_top as int,
            ),
{
    if current_top + height_in_lines <= selection {
        selection.saturating_sub(height_in_lines) + 1
    } else if current_top > selection {
        selection
    } else {
        current_top
    }
}

/// ui component size representation
#[derive(Copy, Clone, Debug, PartialEq, Eq)]
pub struct Size {
    pub width: u16,
    pub height: u16,
}

impl Size {
    pub fn new(width: u16, height: u16) -> (r: Self)
        ensures
            r.width == width && r.height == height,
    {
        Self { width, height }
    }
}

/// A rectangle of the terminal: its top left corner and its size, in cells.
#[derive(Copy, Clone, Debug, PartialEq, Eq)]
pub struct Rect {
    pub x: u16,
    pub y: u16,
    pub width: u16,
    pub height: u16,
}

impl From<Rect> for Size {
    fn from(r: Rect) -> (s: Self) {
        Self { width: r.width, height: r.height }
    }
}

impl vstd::std_specs::convert::FromSpecImpl<Rect> for Size {
    open spec fn obeys_from_spec() -> bool {
        true
    }

    open spec fn from_spec(r: Rect) -> Size {
        Size { width: r.width, height: r.height }
    }
}

/// The size that a rectangle of `width` by `height` is clipped to where its area
/// exceeds `u16::MAX`, keeping its aspect ratio.
pub uninterp spec fn clipped_size(width: u16, height: u16) -> (u16, u16);

/// The rectangle made at `x`, `y` of `width` by `height`: kept as it is where its
/// area fits in `u16`, else clipped.
pub open spec fn new_rect(x: u16, y: u16, width: u16, height: u16) -> Rect {
    if width * height <= u16::MAX {
        Rect { x, y, width, height }
    } else {
        Rect { x, y, width: clipped_size(width, height).0, height: clipped_size(width, height).1 }
    }
}

/// Relies on tui's `Rect::new`: it keeps the corner, keeps the size where the area
/// fits in `u16`, and otherwise clips the size by its arguments alone.
#[verifier::external_body]
fn rect_new(x: u16, y: u16, width: u16, height: u16) -> (r: Rect)
    ensures
        r.x == x && r.y == y,
        width * height <= u16::MAX ==> r.width == width && r.height == height,
        width * height > u16::MAX ==> (r.width, r.height) == clipped_size(width, height),
{
    let t = tui::layout::Rect::new(x, y, width, height);
    Rect { x: t.x, y: t.y, width: t.width, height: t.height }
}

pub open spec fn min_u16(a: u16, b: u16) -> u16 {
    if a <= b { a } else { b }
}

pub open spec fn max_u16(a: u16, b: u16) -> u16 {
    if a >= b { a } else { b }
}

pub open spec fn sat_sub(a: u16, b: u16) -> u16 {
    if a >= b { (a - b) as u16 } else { 0 }
}

fn min(a: u16, b: u16) -> (r: u16)
    ensures
        r == min_u16(a, b),
{
    if a <= b { a } else { b }
}

fn max(a: u16, b: u16) -> (r: u16)
    ensures
        r == max_u16(a, b),
{
    if a >= b { a } else { b }
}

/// The rectangle that `rect_inside` gives.
pub open spec fn rect_inside_spec(min: Size, max: Size, r: Rect) -> Rect {
    let w = min_u16(max_u16(r.width, min.width), max.width);
    let h = min_u16(max_u16(r.height, min.height), max.height);
    new_rect(
        sat_sub(r.x, (sat_sub(w, r.width) / 2) as u16),
        sat_sub(r.y, (sat_sub(h, r.height) / 2) as u16),
        w,
        h,
    )
}

/// makes sure Rect `r` at least stays as big as min and not bigger than max
pub fn rect_inside(min: Size, max: Size, r: Rect) -> (o: Rect)
    ensures
        o == rect_inside_spec(min, max, r),
{
    let new_width = crate::ui::min(crate::ui::max(r.width, min.width), max.width);
    let new_height = crate::ui::min(crate::ui::max(r.height, min.height), max.height);
    let diff_width = new_width.saturating_sub(r.width);
    let diff_height = new_height.saturating_sub(r.height);
    rect_new(
        r.x.saturating_sub(diff_width / 2),
        r.y.saturating_sub(diff_height / 2),
        new_width,
        new_height,
    )
}

/// The rectangle that `centered_rect_absolute` gives.
pub open spec fn centered_rect_absolute_spec(width: u16, height: u16, r: Rect) -> Rect {
    new_rect(
        (sat_sub(r.width, width) / 2) as u16,
        (sat_sub(r.height, height) / 2) as u16,
        min_u16(width, r.width),
        min_u16(height, r.height),
    )
}

/// A rectangle of `width` by `height`, at most as large as `r`, centered in a
/// rectangle of the size of `r`
pub fn centered_rect_absolute(width: u16, height: u16, r: Rect) -> (o: Rect)
    ensures
        o == centered_rect_absolute_spec(width, height, r),
{
    rect_new(
        r.width.saturating_sub(width) / 2,
        r.height.saturating_sub(height) / 2,
        crate::ui::min(width, r.width),
        crate::ui::min(height, r.height),
    )
}

} // verus!
