//! Target rectangles of slides and anchored resizes.
use vstd::prelude::*;

verus! {

/// A rectangle of terminal cells.
#[derive(Clone, Copy, Debug, PartialEq, Eq, Structural)]
pub struct Rect {
    pub x: u16,
    pub y: u16,
    pub width: u16,
    pub height: u16,
}

/// The largest cell coordinate.
pub open spec fn coord_max() -> int {
    65535
}

/// Builds a rectangle with `ratatui::layout::Rect::new`, whose source keeps
/// `x` and `y` and clips the width and the height so that the right and the
/// bottom edge stay within `u16`.
#[verifier::external_body]
fn ratatui_rect(x: u16, y: u16, width: u16, height: u16) -> (r: Rect)
    ensures
        r.x == x,
        r.y == y,
        r.width == (if x + width <= coord_max() { width as int } else { coord_max() - x }),
        r.height == (if y + height <= coord_max() { height as int } else { coord_max() - y }),
{
    let r = ratatui::layout::Rect::new(x, y, width, height);
    Rect { x: r.x, y: r.y, width: r.width, height: r.height }
}

impl Rect {
    /// A rectangle at (`x`, `y`); its size is clipped so that it ends
    /// within the coordinate range.
    pub fn new(x: u16, y: u16, width: u16, height: u16) -> (r: Rect)
        ensures
            r.x == x,
            r.y == y,
            r.width == (if x + width <= coord_max() { width as int } else { coord_max() - x }),
            r.height == (if y + height <= coord_max() { height as int } else { coord_max() - y }),
    {
        ratatui_rect(x, y, width, height)
    }

    /// The row just below the rectangle: `y + height`, at most the largest
    /// coordinate.
    pub fn bottom(&self) -> (r: u16)
        ensures
            r == sat_add(self.y as int, self.height as int),
    {
        self.y.saturating_add(self.height)
    }
}

/// A direction of a slide (terminal coordinates: `y` grows downwards).
#[derive(Clone, Copy, Debug, PartialEq, Eq, Structural)]
pub enum SlideDirection {
    Up,
    Down,
    Left,
    Right,
}

/// The point of a rectangle that stays in place while it is resized.
#[derive(Clone, Copy, Debug, PartialEq, Eq, Structural)]
pub enum ResizeAnchor {
    TopLeft,
    Top,
    TopRight,
    Left,
    Center,
    Right,
    BottomLeft,
    Bottom,
    BottomRight,
}

/// `a - b`, or 0 when that is negative.
pub open spec fn sat_sub(a: int, b: int) -> int {
    if a - b < 0 { 0 } else { a - b }
}

/// `a + b`, or the largest coordinate when that is larger.
pub open spec fn sat_add(a: int, b: int) -> int {
    if a + b > coord_max() { coord_max() } else { a + b }
}

/// The size a rectangle at `origin` keeps of `size`.
pub open spec fn clipped(origin: int, size: int) -> int {
    if origin + size <= coord_max() { size } else { coord_max() - origin }
}

/// The rectangle that `start` becomes when moved by `distance` cells
/// towards `direction`, with coordinates stopping at the edges of the
/// coordinate range.
pub open spec fn slide_spec(start: Rect, direction: SlideDirection, distance: int) -> (int, int) {
    match direction {
        SlideDirection::Up => (start.x as int, sat_sub(start.y as int, distance)),
        SlideDirection::Down => (start.x as int, sat_add(start.y as int, distance)),
        SlideDirection::Left => (sat_sub(start.x as int, distance), start.y as int),
        SlideDirection::Right => (sat_add(start.x as int, distance), start.y as int),
    }
}

/// The target of a slide of `distance` cells from `start` towards
/// `direction`; the size is kept, clipped to the coordinate range.
pub fn slide_target(start: Rect, direction: SlideDirection, distance: u16) -> (r: Rect)
    ensures
        r.x == slide_spec(start, direction, distance as int).0,
        r.y == slide_spec(start, direction, distance as int).1,
        r.width == clipped(r.x as int, start.width as int),
        r.height == clipped(r.y as int, start.height as int),
{
    let (x, y) = match direction {
        SlideDirection::Up => (start.x, start.y.saturating_sub(distance)),
        SlideDirection::Down => (start.x, start.y.saturating_add(distance)),
        SlideDirection::Left => (start.x.saturating_sub(distance), start.y),
        SlideDirection::Right => (start.x.saturating_add(distance), start.y),
    };
    Rect::new(x, y, start.width, start.height)
}

/// Where the anchor sits along each axis, in halves of the rectangle's
/// extent: 0 at the start, 1 in the middle, 2 at the end.
pub open spec fn anchor_halves(anchor: ResizeAnchor) -> (int, int) {
    match anchor {
        ResizeAnchor::TopLeft => (0, 0),
        ResizeAnchor::Top => (1, 0),
        ResizeAnchor::TopRight => (2, 0),
        ResizeAnchor::Left => (0, 1),
        ResizeAnchor::Center => (1, 1),
        ResizeAnchor::Right => (2, 1),
        ResizeAnchor::BottomLeft => (0, 2),
        ResizeAnchor::Bottom => (1, 2),
        ResizeAnchor::BottomRight => (2, 2),
    }
}

/// `n / 2` rounded to the nearest integer, halves away from zero.
pub open spec fn half_rounded(n: int) -> int {
    if n % 2 == 0 {
        n / 2
    } else if n > 0 {
        (n + 1) / 2
    } else {
        -((-n + 1) / 2)
    }
}

/// `v` clamped to the coordinate range.
pub open spec fn clamp_coord(v: int) -> int {
    if v < 0 { 0 } else if v > coord_max() { coord_max() } else { v }
}

/// The new start coordinate along one axis: the anchor point, at `halves`
/// halves of the old extent `size` from `origin`, stays where it is for
/// the new extent `new_size`; the result is rounded and clamped.
pub open spec fn anchored_origin(origin: int, size: int, new_size: int, halves: int) -> int {
    clamp_coord(half_rounded(2 * origin + size * halves - new_size * halves))
}

fn anchored_coord(origin: u16, size: u16, new_size: u16, halves: u8) -> (r: u16)
    requires
        halves <= 2,
    ensures
        r == anchored_origin(origin as int, size as int, new_size as int, halves as int),
{
    let o: i64 = origin as i64;
    let s: i64 = size as i64;
    let t: i64 = new_size as i64;
    let n: i64 = if halves == 0 {
        2 * o
    } else if halves == 1 {
        2 * o + s - t
    } else {
        2 * o + 2 * s - 2 * t
    };
    let rounded: i64 = if n >= 0 {
        if n % 2 == 0 {
            n / 2
        } else {
            (n + 1) / 2
        }
    } else {
        let m: i64 = -n;
        if m % 2 == 0 {
            -(m / 2)
        } else {
            -((m + 1) / 2)
        }
    };
    if rounded < 0 {
        0
    } else if rounded > 65535 {
        65535
    } else {
        rounded as u16
    }
}

/// Whether the target `r` of resizing `start` to `new_width` by
/// `new_height` keeps the point named by `anchor` in place: a left anchor
/// keeps the left edge, a right anchor the right edge, a top anchor the top
/// edge, a bottom anchor the bottom edge, and a centred anchor keeps the
/// middle within half a cell, each wherever the new position is within the
/// coordinate range.
pub open spec fn keeps_named_anchor(start: Rect, anchor: ResizeAnchor, new_width: int, new_height: int, r: Rect) -> bool {
    let left = anchor is TopLeft || anchor is Left || anchor is BottomLeft;
    let right = anchor is TopRight || anchor is Right || anchor is BottomRight;
    let top = anchor is TopLeft || anchor is Top || anchor is TopRight;
    let bottom = anchor is BottomLeft || anchor is Bottom || anchor is BottomRight;
    let mx = 2 * start.x + start.width - new_width;
    let my = 2 * start.y + start.height - new_height;
    &&& left ==> r.x == start.x
    &&& right && new_width <= start.x + start.width <= new_width + coord_max() ==> r.x + new_width == start.x
        + start.width
    &&& !left && !right && 0 <= mx <= 2 * coord_max() ==> -1 <= 2 * r.x + new_width - (2 * start.x
        + start.width) <= 1
    &&& top ==> r.y == start.y
    &&& bottom && new_height <= start.y + start.height <= new_height + coord_max() ==> r.y + new_height
        == start.y + start.height
    &&& !top && !bottom && 0 <= my <= 2 * coord_max() ==> -1 <= 2 * r.y + new_height - (2 * start.y
        + start.height) <= 1
}

/// A resize keeps its anchor in place: the target that [`resize_target`]
/// gives for any start, anchor and new size keeps the point the anchor
/// names, as [`keeps_named_anchor`] says; with `BottomLeft`, for example,
/// the bottom-left corner stays where it was.
pub proof fn resize_keeps_named_anchor(start: Rect, anchor: ResizeAnchor, new_width: int, new_height: int, r: Rect)
    requires
        0 <= new_width <= coord_max(),
        0 <= new_height <= coord_max(),
        r.x == anchored_origin(start.x as int, start.width as int, new_width, anchor_halves(anchor).0),
        r.y == anchored_origin(start.y as int, start.height as int, new_height, anchor_halves(anchor).1),
    ensures
        keeps_named_anchor(start, anchor, new_width, new_height, r),
{
    lemma_axis_anchor(start.x as int, start.width as int, new_width, anchor_halves(anchor).0, r.x as int);
    lemma_axis_anchor(start.y as int, start.height as int, new_height, anchor_halves(anchor).1, r.y as int);
}

proof fn lemma_axis_anchor(o: int, s: int, t: int, h: int, v: int)
    requires
        0 <= o <= coord_max(),
        0 <= s <= coord_max(),
        0 <= t <= coord_max(),
        0 <= h <= 2,
        v == anchored_origin(o, s, t, h),
    ensures
        h == 0 ==> v == o,
        h == 2 && t <= o + s <= t + coord_max() ==> v + t == o + s,
        h == 1 && 0 <= 2 * o + s - t <= 2 * coord_max() ==> -1 <= 2 * v + t - (2 * o + s) <= 1,
{
    let n = 2 * o + s * h - t * h;
    if h == 0 {
        assert(n == 2 * o);
        assert(n % 2 == 0 && n / 2 == o);
    } else if h == 2 {
        assert(n == 2 * (o + s - t));
        if o + s >= t {
            assert(n % 2 == 0 && n / 2 == o + s - t);
        }
    } else {
        assert(n == 2 * o + s - t);
        if 0 <= n <= 2 * coord_max() {
            if n % 2 == 0 {
                assert(2 * (n / 2) == n);
            } else {
                assert(2 * ((n + 1) / 2) == n + 1);
            }
        }
    }
}

/// The target of resizing `start` to `new_width` by `new_height` so that
/// the point `anchor` stays in place on the screen.
pub fn resize_target(start: Rect, anchor: ResizeAnchor, new_width: u16, new_height: u16) -> (r: Rect)
    ensures
        r.x == anchored_origin(start.x as int, start.width as int, new_width as int, anchor_halves(anchor).0),
        r.y == anchored_origin(start.y as int, start.height as int, new_height as int, anchor_halves(anchor).1),
        r.width == clipped(r.x as int, new_width as int),
        r.height == clipped(r.y as int, new_height as int),
        keeps_named_anchor(start, anchor, new_width as int, new_height as int, r),
{
    let (hx, hy): (u8, u8) = match anchor {
        ResizeAnchor::TopLeft => (0, 0),
        ResizeAnchor::Top => (1, 0),
        ResizeAnchor::TopRight => (2, 0),
        ResizeAnchor::Left => (0, 1),
        ResizeAnchor::Center => (1, 1),
        ResizeAnchor::Right => (2, 1),
        ResizeAnchor::BottomLeft => (0, 2),
        ResizeAnchor::Bottom => (1, 2),
        ResizeAnchor::BottomRight => (2, 2),
    };
    let x = anchored_coord(start.x, start.width, new_width, hx);
    let y = anchored_coord(start.y, start.height, new_height, hy);
    let r = Rect::new(x, y, new_width, new_height);
    proof {
        resize_keeps_named_anchor(start, anchor, new_width as int, new_height as int, r);
    }
    r
}


/// The anchor stays in place: unless the new position had to be clamped
/// to the coordinate range, the anchor point of the target (at the same
/// fraction of the new extent) lies within half a cell of the anchor
/// point of the start.
pub proof fn resize_keeps_anchor(origin: int, size: int, new_size: int, halves: int)
    requires
        0 <= halves <= 2,
        0 <= half_rounded(2 * origin + size * halves - new_size * halves) <= coord_max(),
    ensures
        ({
            let o2 = anchored_origin(origin, size, new_size, halves);
            -1 <= 2 * o2 + new_size * halves - (2 * origin + size * halves) <= 1
        }),
{
}

/// A slide back undoes a slide: moving `distance` cells one way and then
/// back returns to the start, as long as no coordinate stopped at an edge
/// of the coordinate range.
pub proof fn slide_back_returns(start: Rect, direction: SlideDirection, distance: int)
    requires
        0 <= distance,
        ({
            let (x, y) = slide_spec(start, direction, distance);
            x - start.x == (match direction {
                SlideDirection::Left => -distance,
                SlideDirection::Right => distance,
                _ => 0,
            }) && y - start.y == (match direction {
                SlideDirection::Up => -distance,
                SlideDirection::Down => distance,
                _ => 0,
            })
        }),
    ensures
        ({
            let (x, y) = slide_spec(start, direction, distance);
            let moved = Rect { x: x as u16, y: y as u16, width: start.width, height: start.height };
            let back = match direction {
                SlideDirection::Up => SlideDirection::Down,
                SlideDirection::Down => SlideDirection::Up,
                SlideDirection::Left => SlideDirection::Right,
                SlideDirection::Right => SlideDirection::Left,
            };
            slide_spec(moved, back, distance) == (start.x as int, start.y as int)
        }),
{
}


/// The rectangles of the black edges at the top and the bottom of the
/// screen, where a transition of them starts and where it ends.
#[derive(Clone, Copy, Debug, PartialEq, Eq, Structural)]
pub struct EdgeTransition {
    pub top_start: Rect,
    pub top_target: Rect,
    pub bottom_start: Rect,
    pub bottom_target: Rect,
}

/// The edge rectangles for showing (or, when `!show`, hiding) black edges
/// of `edge_height` rows on `area`: the top edge grows down from the top
/// row and the bottom edge grows up from below the last row (or they
/// shrink back).
pub open spec fn edge_rects(area: Rect, edge_height: int, show: bool) -> (Rect, Rect, Rect, Rect) {
    let b = sat_add(area.y as int, area.height as int);
    let closed_top = (area.x as int, area.y as int, area.width as int, 0int);
    let open_top = (area.x as int, area.y as int, area.width as int, edge_height);
    let closed_bottom = (area.x as int, b, area.width as int, 0int);
    let open_bottom = (area.x as int, b - edge_height, area.width as int, edge_height);
    let mk = |r: (int, int, int, int)| Rect { x: r.0 as u16, y: r.1 as u16, width: clipped(r.0, r.2) as u16, height: clipped(r.1, r.3) as u16 };
    if show {
        (mk(closed_top), mk(open_top), mk(closed_bottom), mk(open_bottom))
    } else {
        (mk(open_top), mk(closed_top), mk(open_bottom), mk(closed_bottom))
    }
}

impl EdgeTransition {
    /// The edge rectangles for showing (or hiding) black edges of
    /// `edge_height` rows on `area`.
    pub fn new(area: Rect, edge_height: u16, show: bool) -> (r: EdgeTransition)
        requires
            edge_height <= sat_add(area.y as int, area.height as int),
        ensures
            (r.top_start, r.top_target, r.bottom_start, r.bottom_target) == edge_rects(
                area,
                edge_height as int,
                show,
            ),
    {
        let b = area.bottom();
        let closed_top = Rect::new(area.x, area.y, area.width, 0);
        let open_top = Rect::new(area.x, area.y, area.width, edge_height);
        let closed_bottom = Rect::new(area.x, b, area.width, 0);
        let open_bottom = Rect::new(area.x, b - edge_height, area.width, edge_height);
        if show {
            EdgeTransition { top_start: closed_top, top_target: open_top, bottom_start: closed_bottom, bottom_target: open_bottom }
        } else {
            EdgeTransition { top_start: open_top, top_target: closed_top, bottom_start: open_bottom, bottom_target: closed_bottom }
        }
    }
}

} // verus!
