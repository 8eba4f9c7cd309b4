//! X11 tray-anchor geometry: which monitor the cursor is on, and what the
//! panels have reserved on it.
//!
//! Nothing here talks to an X server. The backend reads the pointer, the CRTCs
//! and the EWMH strut properties, copies them into the plain structs below, and
//! hands them over.
//!
//! # Work area
//!
//! X11 has no per-monitor work area to ask for, so it is computed: the monitor,
//! minus every reserved band that reaches onto it. Each of the four edges is
//! pushed past the deepest accepted reservation on that side. A band is accepted
//! when it has a depth and its range on the other axis meets the monitor. If the
//! reservations leave nothing of an axis, that axis is given back in full: an
//! empty rectangle would pin a window to a corner, an overlapping one merely
//! sits under a panel.
//!
//! Struts are in root-window coordinates, not relative to a monitor: a panel
//! along the bottom of a short monitor beside a taller one reserves a band
//! measured from the bottom of the whole screen.

use vstd::prelude::*;

use crate::geometry::{AnchorUnit, TrayAnchor, WorkRect, MAX_EXTENT};
use crate::text;

verus! {

/// The most a strut property is asked for, in four-byte units: one more than
/// `_NET_WM_STRUT_PARTIAL` can hold, so that an over-long property arrives as
/// thirteen values and is rejected instead of being truncated to twelve.
pub const STRUT_WORDS: u32 = 13;

/// The most `_NET_CLIENT_LIST` is asked for: 8192 windows.
pub const CLIENT_LIST_WORDS: u32 = 8192;

/// The most `_XSETTINGS_SETTINGS` is asked for: 256 KB.
pub const XSETTINGS_WORDS: u32 = 65_536;

/// One enabled CRTC.
#[derive(Debug, Clone, Copy, PartialEq, Eq, Structural)]
pub struct X11Monitor {
    /// The CRTC's rectangle in root-window coordinates, device pixels.
    pub bounds: WorkRect,
    /// Physical width in millimetres of the first output the CRTC drives, or
    /// zero when `RandR` would not say.
    pub mm_width: u32,
    /// Physical height in millimetres, likewise.
    pub mm_height: u32,
}

/// The root window's dimensions, which is the space struts are measured in.
#[derive(Debug, Clone, Copy, PartialEq, Eq, Structural)]
pub struct X11Screen {
    /// Root window width in pixels.
    pub width: u32,
    /// Root window height in pixels.
    pub height: u32,
}

/// One window's reserved space, in EWMH's twelve-field partial form.
///
/// The four depths are measured from the edges of the screen; the eight range
/// fields say the span along that edge over which each applies, both ends
/// inclusive.
#[derive(Debug, Clone, Copy, PartialEq, Eq, Structural)]
pub struct X11Strut {
    /// Pixels reserved inward from the screen's left edge.
    pub left: u32,
    /// Pixels reserved inward from the screen's right edge.
    pub right: u32,
    /// Pixels reserved downward from the screen's top edge.
    pub top: u32,
    /// Pixels reserved upward from the screen's bottom edge.
    pub bottom: u32,
    /// First row the left reservation covers.
    pub left_start_y: u32,
    /// Last row the left reservation covers.
    pub left_end_y: u32,
    /// First row the right reservation covers.
    pub right_start_y: u32,
    /// Last row the right reservation covers.
    pub right_end_y: u32,
    /// First column the top reservation covers.
    pub top_start_x: u32,
    /// Last column the top reservation covers.
    pub top_end_x: u32,
    /// First column the bottom reservation covers.
    pub bottom_start_x: u32,
    /// Last column the bottom reservation covers.
    pub bottom_end_x: u32,
}

impl Default for X11Strut {
    /// A strut that reserves nothing.
    fn default() -> (strut: Self)
        ensures
            strut == partial_strut(Seq::new(12, |i: int| 0u32)),
    {
        X11Strut::from_partial([0, 0, 0, 0, 0, 0, 0, 0, 0, 0, 0, 0])
    }
}

/// The strut twelve `_NET_WM_STRUT_PARTIAL` values describe, in property order.
pub open spec fn partial_strut(v: Seq<u32>) -> X11Strut {
    X11Strut {
        left: v[0],
        right: v[1],
        top: v[2],
        bottom: v[3],
        left_start_y: v[4],
        left_end_y: v[5],
        right_start_y: v[6],
        right_end_y: v[7],
        top_start_x: v[8],
        top_end_x: v[9],
        bottom_start_x: v[10],
        bottom_end_x: v[11],
    }
}

/// The strut four `_NET_WM_STRUT` values describe: EWMH defines the short form
/// as the partial one with every start zero and every end the screen's extent.
pub open spec fn legacy_strut(v: Seq<u32>, screen: X11Screen) -> X11Strut {
    X11Strut {
        left: v[0],
        right: v[1],
        top: v[2],
        bottom: v[3],
        left_start_y: 0,
        left_end_y: screen.height,
        right_start_y: 0,
        right_end_y: screen.height,
        top_start_x: 0,
        top_end_x: screen.width,
        bottom_start_x: 0,
        bottom_end_x: screen.width,
    }
}

impl X11Strut {
    /// Whether any of the four depths is nonzero.
    pub open spec fn reserves(self) -> bool {
        self.left > 0 || self.right > 0 || self.top > 0 || self.bottom > 0
    }

    /// A `_NET_WM_STRUT_PARTIAL` value.
    pub fn from_partial(values: [u32; 12]) -> (strut: Self)
        ensures
            strut == partial_strut(values@),
    {
        X11Strut {
            left: values[0],
            right: values[1],
            top: values[2],
            bottom: values[3],
            left_start_y: values[4],
            left_end_y: values[5],
            right_start_y: values[6],
            right_end_y: values[7],
            top_start_x: values[8],
            top_end_x: values[9],
            bottom_start_x: values[10],
            bottom_end_x: values[11],
        }
    }

    /// Whether this strut reserves any space at all.
    pub fn reserves_anything(&self) -> (yes: bool)
        ensures
            yes == self.reserves(),
    {
        self.left > 0 || self.right > 0 || self.top > 0 || self.bottom > 0
    }

    /// The legacy four-field `_NET_WM_STRUT`, widened to the partial form.
    pub fn from_legacy(values: [u32; 4], screen: X11Screen) -> (strut: Self)
        ensures
            strut == legacy_strut(values@, screen),
    {
        X11Strut {
            left: values[0],
            right: values[1],
            top: values[2],
            bottom: values[3],
            left_start_y: 0,
            left_end_y: screen.height,
            right_start_y: 0,
            right_end_y: screen.height,
            top_start_x: 0,
            top_end_x: screen.width,
            bottom_start_x: 0,
            bottom_end_x: screen.width,
        }
    }
}

// -- Which monitor --------------------------------------------------------

/// Whether `point` is inside `rect`, right and bottom edges exclusive.
pub fn contains(rect: WorkRect, point: (i32, i32)) -> (inside: bool)
    ensures
        inside == rect.covers(point.0 as int, point.1 as int),
{
    let x: i64 = point.0 as i64;
    let y: i64 = point.1 as i64;
    let left: i64 = rect.x as i64;
    let top: i64 = rect.y as i64;
    x >= left && x < left + rect.w as i64 && y >= top && y < top + rect.h as i64
}

/// How far `p` is from the pixels `lo .. lo + extent`; an empty span counts as
/// its first pixel.
pub open spec fn gap(lo: int, extent: int, p: int) -> int {
    let last = if extent > 0 {
        lo + extent - 1
    } else {
        lo
    };
    if p < lo {
        lo - p
    } else if p > last {
        p - last
    } else {
        0
    }
}

/// The squared distance from a point to the nearest pixel of `rect`.
pub open spec fn squared_distance(rect: WorkRect, x: int, y: int) -> int {
    gap(rect.x as int, rect.w as int, x) * gap(rect.x as int, rect.w as int, x) + gap(
        rect.y as int,
        rect.h as int,
        y,
    ) * gap(rect.y as int, rect.h as int, y)
}

/// `d`, or `i64::MAX` where it does not fit.
pub open spec fn saturated(d: int) -> int {
    if d > i64::MAX {
        i64::MAX as int
    } else {
        d
    }
}

fn gap_to(lo: i32, extent: u32, p: i32) -> (distance: i64)
    ensures
        distance == gap(lo as int, extent as int, p as int),
        0 <= distance <= 0x2_0000_0000,
{
    let first: i64 = lo as i64;
    let last: i64 = if extent > 0 {
        first + extent as i64 - 1
    } else {
        first
    };
    let at: i64 = p as i64;
    if at < first {
        first - at
    } else if at > last {
        at - last
    } else {
        0
    }
}

fn saturating_square(d: i64) -> (square: i64)
    requires
        0 <= d,
    ensures
        square == saturated(d * d),
{
    assert(d * d >= 0) by (nonlinear_arith)
        requires
            0 <= d,
    ;
    match d.checked_mul(d) {
        Some(square) => square,
        None => i64::MAX,
    }
}

/// Squared distance from `point` to the nearest pixel of `rect`, zero inside
/// it, saturating at `i64::MAX`.
///
/// Squared because only the ordering matters and a square root would round two
/// equidistant monitors apart.
pub fn distance_squared(rect: WorkRect, point: (i32, i32)) -> (distance: i64)
    ensures
        distance == saturated(squared_distance(rect, point.0 as int, point.1 as int)),
{
    let dx: i64 = gap_to(rect.x, rect.w, point.0);
    let dy: i64 = gap_to(rect.y, rect.h, point.1);
    let xx: i64 = saturating_square(dx);
    let yy: i64 = saturating_square(dy);
    assert(dx * dx >= 0 && dy * dy >= 0) by (nonlinear_arith)
        requires
            0 <= dx,
            0 <= dy,
    ;
    match xx.checked_add(yy) {
        Some(sum) => sum,
        None => i64::MAX,
    }
}

/// A smaller distance, in either direction, has the smaller square.
proof fn lemma_square_is_monotonic(near: int, far: int)
    requires
        0 <= near,
        near <= far || near <= -far,
    ensures
        near * near <= far * far,
{
    assert(near * near <= far * far) by (nonlinear_arith)
        requires
            0 <= near,
            near <= far || near <= -far,
    ;
}

/// The distance to a rectangle is the distance to one of its own pixels, and no
/// pixel of it is nearer.
pub proof fn law_distance_is_to_the_nearest_pixel(rect: WorkRect, x: int, y: int) -> (nearest: (
    int,
    int,
))
    requires
        rect.w > 0,
        rect.h > 0,
    ensures
        rect.x <= nearest.0 < rect.x + rect.w,
        rect.y <= nearest.1 < rect.y + rect.h,
        squared_distance(rect, x, y) == (nearest.0 - x) * (nearest.0 - x) + (nearest.1 - y) * (
        nearest.1 - y),
        forall|px: int, py: int|
            rect.x <= px < rect.x + rect.w && rect.y <= py < rect.y + rect.h ==> squared_distance(
                rect,
                x,
                y,
            ) <= #[trigger] ((px - x) * (px - x)) + #[trigger] ((py - y) * (py - y)),
{
    let px = if x < rect.x {
        rect.x as int
    } else if x >= rect.x + rect.w {
        rect.x + rect.w - 1
    } else {
        x
    };
    let py = if y < rect.y {
        rect.y as int
    } else if y >= rect.y + rect.h {
        rect.y + rect.h - 1
    } else {
        y
    };
    let gx = gap(rect.x as int, rect.w as int, x);
    let gy = gap(rect.y as int, rect.h as int, y);
    lemma_square_is_monotonic(gx, px - x);
    lemma_square_is_monotonic(gy, py - y);
    assert((px - x) * (px - x) == gx * gx) by (nonlinear_arith)
        requires
            px - x == gx || px - x == -gx,
    ;
    assert((py - y) * (py - y) == gy * gy) by (nonlinear_arith)
        requires
            py - y == gy || py - y == -gy,
    ;
    assert forall|qx: int, qy: int|
        rect.x <= qx < rect.x + rect.w && rect.y <= qy < rect.y + rect.h implies squared_distance(
        rect,
        x,
        y,
    ) <= #[trigger] ((qx - x) * (qx - x)) + #[trigger] ((qy - y) * (qy - y)) by {
        lemma_square_is_monotonic(gx, qx - x);
        lemma_square_is_monotonic(gy, qy - y);
    }
    (px, py)
}

/// A point is inside a rectangle that has pixels exactly when its distance to
/// it is zero.
pub proof fn law_inside_means_distance_zero(rect: WorkRect, x: i32, y: i32)
    requires
        rect.w > 0,
        rect.h > 0,
    ensures
        rect.covers(x as int, y as int) <==> saturated(
            squared_distance(rect, x as int, y as int),
        ) == 0,
{
    let gx = gap(rect.x as int, rect.w as int, x as int);
    let gy = gap(rect.y as int, rect.h as int, y as int);
    assert(gx * gx + gy * gy == 0 <==> gx == 0 && gy == 0) by (nonlinear_arith);
}

/// Whether monitor `i` is the one for a cursor at `(x, y)`: the first that
/// contains it; where none does, the first among the nearest.
pub open spec fn is_monitor_for(monitors: Seq<X11Monitor>, x: int, y: int, i: int) -> bool {
    &&& 0 <= i < monitors.len()
    &&& if exists|k: int| 0 <= k < monitors.len() && (#[trigger] monitors[k]).bounds.covers(x, y) {
        &&& monitors[i].bounds.covers(x, y)
        &&& forall|j: int| 0 <= j < i ==> !(#[trigger] monitors[j]).bounds.covers(x, y)
    } else {
        &&& forall|j: int|
            0 <= j < monitors.len() ==> saturated(squared_distance(monitors[i].bounds, x, y))
                <= saturated(squared_distance((#[trigger] monitors[j]).bounds, x, y))
        &&& forall|j: int|
            0 <= j < i ==> saturated(squared_distance(monitors[i].bounds, x, y)) < saturated(
                squared_distance((#[trigger] monitors[j]).bounds, x, y),
            )
    }
}

/// The index of the monitor the cursor is on, or of the nearest one; `None`
/// only for an empty list.
///
/// Containment is half-open, so two abutting monitors never both claim the
/// column between them, and ties in distance go to the earlier monitor.
pub fn monitor_for_cursor(cursor: (i32, i32), monitors: &[X11Monitor]) -> (index: Option<usize>)
    ensures
        index is None <==> monitors@.len() == 0,
        index matches Some(i) ==> is_monitor_for(
            monitors@,
            cursor.0 as int,
            cursor.1 as int,
            i as int,
        ),
{
    let ghost cx = cursor.0 as int;
    let ghost cy = cursor.1 as int;
    let mut nearest: Option<(usize, i64)> = None;
    let mut index: usize = 0;
    while index < monitors.len()
        invariant
            index <= monitors.len(),
            cx == cursor.0,
            cy == cursor.1,
            forall|j: int| 0 <= j < index ==> !(#[trigger] monitors@[j]).bounds.covers(cx, cy),
            nearest is None <==> index == 0,
            nearest matches Some((n, d)) ==> {
                &&& n < index
                &&& d == saturated(squared_distance(monitors@[n as int].bounds, cx, cy))
                &&& forall|j: int|
                    0 <= j < index ==> d <= saturated(
                        squared_distance((#[trigger] monitors@[j]).bounds, cx, cy),
                    )
                &&& forall|j: int|
                    0 <= j < n ==> d < saturated(
                        squared_distance((#[trigger] monitors@[j]).bounds, cx, cy),
                    )
            },
        decreases monitors.len() - index,
    {
        let bounds: WorkRect = monitors[index].bounds;
        if contains(bounds, cursor) {
            assert(monitors@[index as int].bounds.covers(cx, cy));
            return Some(index);
        }
        let distance: i64 = distance_squared(bounds, cursor);
        let nearer: bool = match nearest {
            None => true,
            Some((_, best)) => distance < best,
        };
        if nearer {
            nearest = Some((index, distance));
        }
        index += 1;
    }
    match nearest {
        None => None,
        Some((n, _)) => Some(n),
    }
}

/// The choice of monitor is unique: the list and the cursor settle it.
pub proof fn law_monitor_choice_is_unique(
    monitors: Seq<X11Monitor>,
    x: int,
    y: int,
    i: int,
    j: int,
)
    requires
        is_monitor_for(monitors, x, y, i),
        is_monitor_for(monitors, x, y, j),
    ensures
        i == j,
{
    let a = monitors[i];
    let b = monitors[j];
    if exists|k: int| 0 <= k < monitors.len() && (#[trigger] monitors[k]).bounds.covers(x, y) {
        assert(a.bounds.covers(x, y) && b.bounds.covers(x, y));
    } else {
        assert(i < j ==> saturated(squared_distance(b.bounds, x, y)) < saturated(
            squared_distance(a.bounds, x, y),
        ));
        assert(j < i ==> saturated(squared_distance(a.bounds, x, y)) < saturated(
            squared_distance(b.bounds, x, y),
        ));
    }
}

/// A monitor that has the cursor's own pixel is taken before every other, and the
/// first such monitor is.
pub proof fn law_first_monitor_with_the_cursor_is_chosen(
    monitors: Seq<X11Monitor>,
    x: int,
    y: int,
    i: int,
    j: int,
)
    requires
        is_monitor_for(monitors, x, y, i),
        0 <= j < monitors.len(),
        monitors[j].bounds.x <= x < monitors[j].bounds.x + monitors[j].bounds.w,
        monitors[j].bounds.y <= y < monitors[j].bounds.y + monitors[j].bounds.h,
    ensures
        i <= j,
        monitors[i].bounds.x <= x < monitors[i].bounds.x + monitors[i].bounds.w,
        monitors[i].bounds.y <= y < monitors[i].bounds.y + monitors[i].bounds.h,
{
    assert(monitors[j].bounds.covers(x, y));
}

/// Where no monitor has the cursor's pixel, the one chosen has a pixel that is no
/// farther from the cursor than any pixel of any monitor, and nearer than every
/// pixel of an earlier one (as far as squared distances fit in an `i64`).
pub proof fn law_nearest_monitor_is_chosen(
    monitors: Seq<X11Monitor>,
    x: int,
    y: int,
    i: int,
    j: int,
    px: int,
    py: int,
) -> (nearest: (int, int))
    requires
        is_monitor_for(monitors, x, y, i),
        monitors[i].bounds.w > 0,
        monitors[i].bounds.h > 0,
        forall|k: int|
            0 <= k < monitors.len() ==> {
                let b = (#[trigger] monitors[k]).bounds;
                !(b.x <= x < b.x + b.w && b.y <= y < b.y + b.h)
            },
        0 <= j < monitors.len(),
        monitors[j].bounds.x <= px < monitors[j].bounds.x + monitors[j].bounds.w,
        monitors[j].bounds.y <= py < monitors[j].bounds.y + monitors[j].bounds.h,
    ensures
        monitors[i].bounds.x <= nearest.0 < monitors[i].bounds.x + monitors[i].bounds.w,
        monitors[i].bounds.y <= nearest.1 < monitors[i].bounds.y + monitors[i].bounds.h,
        ({
            let chosen = (nearest.0 - x) * (nearest.0 - x) + (nearest.1 - y) * (nearest.1 - y);
            let other = (px - x) * (px - x) + (py - y) * (py - y);
            &&& other < i64::MAX ==> chosen <= other
            &&& j < i ==> chosen < other
        }),
{
    let there = law_distance_is_to_the_nearest_pixel(monitors[j].bounds, x, y);
    let here = law_distance_is_to_the_nearest_pixel(monitors[i].bounds, x, y);
    let other = (px - x) * (px - x) + (py - y) * (py - y);
    assert(squared_distance(monitors[j].bounds, x, y) <= other);
    assert(forall|k: int|
        0 <= k < monitors.len() ==> !(#[trigger] monitors[k]).bounds.covers(x, y));
    assert(saturated(squared_distance(monitors[i].bounds, x, y)) <= saturated(
        squared_distance(monitors[j].bounds, x, y),
    ));
    if j < i {
        assert(saturated(squared_distance(monitors[i].bounds, x, y)) < saturated(
            squared_distance(monitors[j].bounds, x, y),
        ));
    }
    let chosen = (here.0 - x) * (here.0 - x) + (here.1 - y) * (here.1 - y);
    assert(chosen == squared_distance(monitors[i].bounds, x, y));
    here
}

// -- Work area ------------------------------------------------------------

/// Whether a strut's inclusive band `start ..= end` meets the half-open span
/// `low .. high` of the other axis. A band that runs backwards meets nothing.
pub open spec fn meets(start: int, end: int, low: int, high: int) -> bool {
    start <= end && start < high && end >= low
}

/// Whether a strut's band overlaps the monitor's span on the other axis.
pub fn band_meets(start: u32, end: u32, span: (i64, i64)) -> (yes: bool)
    ensures
        yes == meets(start as int, end as int, span.0 as int, span.1 as int),
{
    start <= end && (start as i64) < span.1 && end as i64 >= span.0
}

/// Whether the left band of `s` reaches the rows of `m`.
pub open spec fn accepts_left(s: X11Strut, m: WorkRect) -> bool {
    s.left > 0 && meets(s.left_start_y as int, s.left_end_y as int, m.y as int, m.bottom())
}

/// Whether the right band of `s` reaches the rows of `m`.
pub open spec fn accepts_right(s: X11Strut, m: WorkRect) -> bool {
    s.right > 0 && meets(s.right_start_y as int, s.right_end_y as int, m.y as int, m.bottom())
}

/// Whether the top band of `s` reaches the columns of `m`.
pub open spec fn accepts_top(s: X11Strut, m: WorkRect) -> bool {
    s.top > 0 && meets(s.top_start_x as int, s.top_end_x as int, m.x as int, m.right())
}

/// Whether the bottom band of `s` reaches the columns of `m`.
pub open spec fn accepts_bottom(s: X11Strut, m: WorkRect) -> bool {
    s.bottom > 0 && meets(s.bottom_start_x as int, s.bottom_end_x as int, m.x as int, m.right())
}

/// The monitor's left edge, pushed right past every accepted left band.
pub open spec fn left_edge(m: WorkRect, struts: Seq<X11Strut>) -> int
    decreases struts.len(),
{
    if struts.len() == 0 {
        m.x as int
    } else {
        let rest = left_edge(m, struts.drop_last());
        if accepts_left(struts.last(), m) && struts.last().left > rest {
            struts.last().left as int
        } else {
            rest
        }
    }
}

/// The monitor's right edge, pulled left past every accepted right band.
pub open spec fn right_edge(m: WorkRect, screen: X11Screen, struts: Seq<X11Strut>) -> int
    decreases struts.len(),
{
    if struts.len() == 0 {
        m.right()
    } else {
        let rest = right_edge(m, screen, struts.drop_last());
        if accepts_right(struts.last(), m) && screen.width - struts.last().right < rest {
            screen.width - struts.last().right
        } else {
            rest
        }
    }
}

/// The monitor's top edge, pushed down past every accepted top band.
pub open spec fn top_edge(m: WorkRect, struts: Seq<X11Strut>) -> int
    decreases struts.len(),
{
    if struts.len() == 0 {
        m.y as int
    } else {
        let rest = top_edge(m, struts.drop_last());
        if accepts_top(struts.last(), m) && struts.last().top > rest {
            struts.last().top as int
        } else {
            rest
        }
    }
}

/// The monitor's bottom edge, pulled up past every accepted bottom band.
pub open spec fn bottom_edge(m: WorkRect, screen: X11Screen, struts: Seq<X11Strut>) -> int
    decreases struts.len(),
{
    if struts.len() == 0 {
        m.bottom()
    } else {
        let rest = bottom_edge(m, screen, struts.drop_last());
        if accepts_bottom(struts.last(), m) && screen.height - struts.last().bottom < rest {
            screen.height - struts.last().bottom
        } else {
            rest
        }
    }
}

/// Whether the reservations leave no column of the monitor.
pub open spec fn columns_emptied(m: WorkRect, screen: X11Screen, struts: Seq<X11Strut>) -> bool {
    right_edge(m, screen, struts) <= left_edge(m, struts)
}

/// Whether the reservations leave no row of the monitor.
pub open spec fn rows_emptied(m: WorkRect, screen: X11Screen, struts: Seq<X11Strut>) -> bool {
    bottom_edge(m, screen, struts) <= top_edge(m, struts)
}

/// `v` brought into the `i32` range.
pub open spec fn clamped_coord(v: int) -> int {
    if v < i32::MIN {
        i32::MIN as int
    } else if v > i32::MAX {
        i32::MAX as int
    } else {
        v
    }
}

/// `v` brought into `0 ..= MAX_EXTENT`.
pub open spec fn clamped_extent(v: int) -> int {
    if v < 0 {
        0
    } else if v > MAX_EXTENT {
        MAX_EXTENT as int
    } else {
        v
    }
}

/// The extent from `origin` to `far`, short enough that `origin + extent` is
/// still an `i32`.
pub open spec fn extent_between(origin: int, far: int) -> int {
    let room = i32::MAX - origin;
    clamped_extent(
        if far - origin < room {
            far - origin
        } else {
            room
        },
    )
}

/// The rectangle between four edges, its origin and extents saturated.
pub open spec fn rect_between(left: int, top: int, right: int, bottom: int) -> WorkRect {
    WorkRect {
        x: clamped_coord(left) as i32,
        y: clamped_coord(top) as i32,
        w: extent_between(clamped_coord(left), right) as u32,
        h: extent_between(clamped_coord(top), bottom) as u32,
    }
}

/// The work area of monitor `m`: its edges pushed in past every accepted band,
/// an emptied axis given back in full.
pub open spec fn work_rect(m: WorkRect, screen: X11Screen, struts: Seq<X11Strut>) -> WorkRect {
    let columns = columns_emptied(m, screen, struts);
    let rows = rows_emptied(m, screen, struts);
    rect_between(
        if columns {
            m.x as int
        } else {
            left_edge(m, struts)
        },
        if rows {
            m.y as int
        } else {
            top_edge(m, struts)
        },
        if columns {
            m.right()
        } else {
            right_edge(m, screen, struts)
        },
        if rows {
            m.bottom()
        } else {
            bottom_edge(m, screen, struts)
        },
    )
}

/// Saturate a coordinate into the `i32` the anchor uses.
pub fn clamp_to_i32(value: i64) -> (coord: i32)
    ensures
        coord == clamped_coord(value as int),
{
    if value < i32::MIN as i64 {
        i32::MIN
    } else if value > i32::MAX as i64 {
        i32::MAX
    } else {
        value as i32
    }
}

/// Saturate an extent into `0 ..= MAX_EXTENT`.
pub fn clamp_extent(value: i64) -> (extent: u32)
    ensures
        extent == clamped_extent(value as int),
{
    if value < 0 {
        0
    } else if value > MAX_EXTENT as i64 {
        MAX_EXTENT
    } else {
        value as u32
    }
}

/// The extent from `origin` to `far`, capped so their sum is still an `i32`.
pub fn extent_from(origin: i32, far: i64) -> (extent: u32)
    ensures
        extent == extent_between(origin as int, far as int),
{
    let room: i64 = i32::MAX as i64 - origin as i64;
    if far >= i32::MAX as i64 {
        clamp_extent(room)
    } else if far <= origin as i64 {
        0
    } else {
        clamp_extent(far - origin as i64)
    }
}

/// Build a [`WorkRect`] from four edges, saturating rather than wrapping.
pub fn rect_from_edges(left: i64, top: i64, right: i64, bottom: i64) -> (rect: WorkRect)
    ensures
        rect == rect_between(left as int, top as int, right as int, bottom as int),
{
    let x: i32 = clamp_to_i32(left);
    let y: i32 = clamp_to_i32(top);
    WorkRect { x, y, w: extent_from(x, right), h: extent_from(y, bottom) }
}

/// `bounds` minus every strut band that reaches onto it, unless that would
/// empty an axis, which gives the axis back in full.
///
/// Every overlap is tested against `bounds`, never against the partly reduced
/// result, so the order of the struts does not matter.
pub fn work_area(bounds: WorkRect, screen: X11Screen, struts: &[X11Strut]) -> (work: WorkRect)
    ensures
        work == work_rect(bounds, screen, struts@),
{
    let monitor_left: i64 = bounds.x as i64;
    let monitor_top: i64 = bounds.y as i64;
    let monitor_right: i64 = monitor_left + bounds.w as i64;
    let monitor_bottom: i64 = monitor_top + bounds.h as i64;
    let screen_right: i64 = screen.width as i64;
    let screen_bottom: i64 = screen.height as i64;

    let mut left: i64 = monitor_left;
    let mut top: i64 = monitor_top;
    let mut right: i64 = monitor_right;
    let mut bottom: i64 = monitor_bottom;
    let rows: (i64, i64) = (monitor_top, monitor_bottom);
    let columns: (i64, i64) = (monitor_left, monitor_right);

    let mut i: usize = 0;
    assert(struts@.take(0) == Seq::<X11Strut>::empty());
    while i < struts.len()
        invariant
            i <= struts.len(),
            screen_right == screen.width,
            screen_bottom == screen.height,
            rows.0 == bounds.y,
            rows.1 == bounds.bottom(),
            columns.0 == bounds.x,
            columns.1 == bounds.right(),
            left == left_edge(bounds, struts@.take(i as int)),
            right == right_edge(bounds, screen, struts@.take(i as int)),
            top == top_edge(bounds, struts@.take(i as int)),
            bottom == bottom_edge(bounds, screen, struts@.take(i as int)),
        decreases struts.len() - i,
    {
        let strut: X11Strut = struts[i];
        proof {
            let longer = struts@.take(i + 1);
            assert(longer.drop_last() == struts@.take(i as int));
            assert(longer.last() == strut);
        }
        if strut.left > 0 && band_meets(strut.left_start_y, strut.left_end_y, rows) {
            if strut.left as i64 > left {
                left = strut.left as i64;
            }
        }
        if strut.right > 0 && band_meets(strut.right_start_y, strut.right_end_y, rows) {
            let edge: i64 = screen_right - strut.right as i64;
            if edge < right {
                right = edge;
            }
        }
        if strut.top > 0 && band_meets(strut.top_start_x, strut.top_end_x, columns) {
            if strut.top as i64 > top {
                top = strut.top as i64;
            }
        }
        if strut.bottom > 0 && band_meets(strut.bottom_start_x, strut.bottom_end_x, columns) {
            let edge: i64 = screen_bottom - strut.bottom as i64;
            if edge < bottom {
                bottom = edge;
            }
        }
        i += 1;
    }
    assert(struts@.take(struts@.len() as int) == struts@);

    if right <= left {
        left = monitor_left;
        right = monitor_right;
    }
    if bottom <= top {
        top = monitor_top;
        bottom = monitor_bottom;
    }
    rect_from_edges(left, top, right, bottom)
}

// -- Which strut property to believe --------------------------------------

/// The strut a window reserves, from its two raw property values.
///
/// A partial value of exactly twelve words that reserves something wins;
/// otherwise a legacy value of exactly four words is taken, whatever it holds.
pub open spec fn chosen_strut(
    partial: Option<Seq<u32>>,
    legacy: Option<Seq<u32>>,
    screen: X11Screen,
) -> Option<X11Strut> {
    if partial matches Some(v) && v.len() == 12 && partial_strut(v).reserves() {
        Some(partial_strut(partial->0))
    } else if legacy matches Some(v) && v.len() == 4 {
        Some(legacy_strut(legacy->0, screen))
    } else {
        None
    }
}

/// The values of a slice that may be absent.
pub open spec fn opt_words(words: Option<&[u32]>) -> Option<Seq<u32>> {
    match words {
        Some(v) => Some(v@),
        None => None,
    }
}

/// Which of a window's two strut properties to believe, if either.
///
/// Where the partial form reserves nothing the legacy form is consulted anyway,
/// as window managers do: obeying EWMH to the letter there would disagree with
/// the shell about where a window fits.
pub fn choose_strut(partial: Option<&[u32]>, legacy: Option<&[u32]>, screen: X11Screen) -> (strut:
    Option<X11Strut>)
    ensures
        strut == chosen_strut(opt_words(partial), opt_words(legacy), screen),
        strut == chosen_strut(
            match partial {
                Some(p) => Some(p@),
                None => None,
            },
            match legacy {
                Some(l) => Some(l@),
                None => None,
            },
            screen,
        ),
{
    if let Some(v) = partial {
        if v.len() == 12 {
            let strut: X11Strut = X11Strut {
                left: v[0],
                right: v[1],
                top: v[2],
                bottom: v[3],
                left_start_y: v[4],
                left_end_y: v[5],
                right_start_y: v[6],
                right_end_y: v[7],
                top_start_x: v[8],
                top_end_x: v[9],
                bottom_start_x: v[10],
                bottom_end_x: v[11],
            };
            if strut.reserves_anything() {
                return Some(strut);
            }
        }
    }
    if let Some(v) = legacy {
        if v.len() == 4 {
            return Some(X11Strut::from_legacy([v[0], v[1], v[2], v[3]], screen));
        }
    }
    None
}

/// A partial value that reserves on some edge is taken word by word, in property
/// order: the four depths, then a first and a last row or column for each.
pub proof fn law_partial_strut_is_taken_word_by_word(
    v: Seq<u32>,
    legacy: Option<Seq<u32>>,
    screen: X11Screen,
)
    requires
        v.len() == 12,
        v[0] > 0 || v[1] > 0 || v[2] > 0 || v[3] > 0,
    ensures
        chosen_strut(Some(v), legacy, screen) matches Some(s) && {
            &&& s.left == v[0] && s.left_start_y == v[4] && s.left_end_y == v[5]
            &&& s.right == v[1] && s.right_start_y == v[6] && s.right_end_y == v[7]
            &&& s.top == v[2] && s.top_start_x == v[8] && s.top_end_x == v[9]
            &&& s.bottom == v[3] && s.bottom_start_x == v[10] && s.bottom_end_x == v[11]
        },
{
}

/// Where the partial value is absent, has another length or reserves nothing, a
/// legacy value of four words decides: its depths hold along the whole of each
/// screen edge, and every other legacy value means that nothing is reserved.
pub proof fn law_legacy_strut_runs_along_whole_edges(
    partial: Option<Seq<u32>>,
    legacy: Option<Seq<u32>>,
    screen: X11Screen,
)
    requires
        partial matches Some(v) ==> v.len() != 12 || (v[0] == 0 && v[1] == 0 && v[2] == 0 && v[3]
            == 0),
    ensures
        legacy matches Some(v) ==> v.len() == 4 ==> (chosen_strut(
            partial,
            legacy,
            screen,
        ) matches Some(s) && {
            &&& s.left == v[0] && s.left_start_y == 0 && s.left_end_y == screen.height
            &&& s.right == v[1] && s.right_start_y == 0 && s.right_end_y == screen.height
            &&& s.top == v[2] && s.top_start_x == 0 && s.top_end_x == screen.width
            &&& s.bottom == v[3] && s.bottom_start_x == 0 && s.bottom_end_x == screen.width
        }),
        legacy is None ==> chosen_strut(partial, legacy, screen) is None,
        legacy matches Some(v) && v.len() != 4 ==> chosen_strut(partial, legacy, screen) is None,
{
}

// -- The assembled anchor -------------------------------------------------

/// The monitors alone, of a list that carries a scale with each.
pub open spec fn bare<S>(monitors: Seq<(X11Monitor, S)>) -> Seq<X11Monitor> {
    Seq::new(monitors.len(), |i: int| monitors[i].0)
}

/// The anchor on one monitor: the cursor as given, that monitor's work area and
/// scale, in physical pixels.
pub open spec fn anchor_on<S>(
    cursor: (i32, i32),
    monitor: (X11Monitor, S),
    screen: X11Screen,
    struts: Seq<X11Strut>,
) -> TrayAnchor<S> {
    TrayAnchor {
        cursor,
        work_area: work_rect(monitor.0.bounds, screen, struts),
        scale: monitor.1,
        unit: AnchorUnit::PhysicalPixels,
    }
}

/// The anchor for an X11 session, or `None` when there is no monitor to place a
/// flyout on. Each monitor comes with its scale.
pub fn anchor_from_x11<S: Copy>(
    cursor: (i32, i32),
    monitors: &[(X11Monitor, S)],
    screen: X11Screen,
    struts: &[X11Strut],
) -> (anchor: Option<TrayAnchor<S>>)
    ensures
        anchor is None <==> monitors@.len() == 0,
        anchor matches Some(a) ==> exists|i: int| #[trigger]
            is_monitor_for(bare(monitors@), cursor.0 as int, cursor.1 as int, i) && a == anchor_on(
                cursor,
                monitors@[i],
                screen,
                struts@,
            ),
{
    let mut plain: Vec<X11Monitor> = Vec::new();
    let mut i: usize = 0;
    while i < monitors.len()
        invariant
            i <= monitors.len(),
            plain@ == bare(monitors@.take(i as int)),
        decreases monitors.len() - i,
    {
        plain.push(monitors[i].0);
        i += 1;
        assert(plain@ =~= bare(monitors@.take(i as int)));
    }
    assert(monitors@.take(monitors@.len() as int) == monitors@);
    match monitor_for_cursor(cursor, plain.as_slice()) {
        None => None,
        Some(at) => {
            assert(is_monitor_for(bare(monitors@), cursor.0 as int, cursor.1 as int, at as int));
            Some(
                TrayAnchor {
                    cursor,
                    work_area: work_area(plain[at].bounds, screen, struts),
                    scale: monitors[at].1,
                    unit: AnchorUnit::PhysicalPixels,
                },
            )
        },
    }
}

/// The anchor is settled by what was read: whichever monitor is the one for the
/// cursor, it is that monitor's work area and scale, and a coordinate on it needs
/// no factor to be physical pixels.
pub proof fn law_anchor_describes_the_cursors_monitor<S: Copy>(
    cursor: (i32, i32),
    monitors: Seq<(X11Monitor, S)>,
    screen: X11Screen,
    struts: Seq<X11Strut>,
    i: int,
    j: int,
    usable: bool,
    one: S,
)
    requires
        is_monitor_for(bare(monitors), cursor.0 as int, cursor.1 as int, i),
        is_monitor_for(bare(monitors), cursor.0 as int, cursor.1 as int, j),
    ensures
        anchor_on(cursor, monitors[i], screen, struts) == anchor_on(
            cursor,
            monitors[j],
            screen,
            struts,
        ),
        ({
            let a = anchor_on(cursor, monitors[i], screen, struts);
            &&& bare(monitors).len() == monitors.len()
            &&& bare(monitors)[i] == monitors[i].0
            &&& a.cursor == cursor
            &&& a.work_area == work_rect(monitors[i].0.bounds, screen, struts)
            &&& a.scale == monitors[i].1
            &&& a.unit == AnchorUnit::PhysicalPixels
            &&& a.factor(a.unit.to_physical(), usable, one) == one
        }),
{
    law_monitor_choice_is_unique(bare(monitors), cursor.0 as int, cursor.1 as int, i, j);
}

// -- Where the scale comes from -------------------------------------------

/// The source a window's scale factor is taken from.
#[derive(Debug, Clone, Copy, PartialEq, Eq, Structural)]
pub enum ScaleSource {
    /// The factor in the override variable.
    Override,
    /// `Xft/DPI` from the XSETTINGS manager.
    Xsettings,
    /// `Xft.dpi` from the X resource database.
    XResource,
    /// Pixels per millimetre of the display itself.
    Display,
}

/// The text of a string that may be absent.
pub open spec fn opt_text(value: Option<&str>) -> Option<Seq<char>> {
    match value {
        Some(s) => Some(s@),
        None => None,
    }
}

/// Whether an override asks for the display to be measured: the word `randr`,
/// in any ASCII case.
pub open spec fn asks_for_randr(scale_override: Option<Seq<char>>) -> bool {
    scale_override matches Some(raw) && text::same_ignoring_ascii_case(raw, "randr"@)
}

/// The word `randr`, each letter small or capital.
pub open spec fn is_the_word_randr(raw: Seq<char>) -> bool {
    &&& raw.len() == 5
    &&& raw[0] == 'r' || raw[0] == 'R'
    &&& raw[1] == 'a' || raw[1] == 'A'
    &&& raw[2] == 'n' || raw[2] == 'N'
    &&& raw[3] == 'd' || raw[3] == 'D'
    &&& raw[4] == 'r' || raw[4] == 'R'
}

proof fn lemma_randr_in_any_case(scale_override: Option<Seq<char>>)
    ensures
        asks_for_randr(scale_override) <==> (scale_override matches Some(raw)
            && is_the_word_randr(raw)),
{
    reveal_strlit("randr");
    if scale_override is Some {
        let raw = scale_override->0;
        let word = "randr"@;
        assert(word.len() == 5);
        assert(asks_for_randr(scale_override) <==> text::same_ignoring_ascii_case(raw, word));
        assert(word[0] == 'r' && word[1] == 'a' && word[2] == 'n' && word[3] == 'd' && word[4]
            == 'r');
        if asks_for_randr(scale_override) {
            text::law_ascii_letters_match_in_either_case(raw[0], 'r', 'R');
            text::law_ascii_letters_match_in_either_case(raw[1], 'a', 'A');
            text::law_ascii_letters_match_in_either_case(raw[2], 'n', 'N');
            text::law_ascii_letters_match_in_either_case(raw[3], 'd', 'D');
            text::law_ascii_letters_match_in_either_case(raw[4], 'r', 'R');
            assert(text::ascii_folded(raw[0]) == text::ascii_folded(word[0]));
            assert(text::ascii_folded(raw[1]) == text::ascii_folded(word[1]));
            assert(text::ascii_folded(raw[2]) == text::ascii_folded(word[2]));
            assert(text::ascii_folded(raw[3]) == text::ascii_folded(word[3]));
            assert(text::ascii_folded(raw[4]) == text::ascii_folded(word[4]));
        }
        if is_the_word_randr(raw) {
            assert forall|i: int| 0 <= i < raw.len() implies text::ascii_folded(#[trigger] raw[i])
                == text::ascii_folded(word[i]) by {
                assert(i == 0 || i == 1 || i == 2 || i == 3 || i == 4);
            }
        }
    }
}

/// The order the sources are consulted in.
pub open spec fn scale_source_of(
    scale_override: Option<Seq<char>>,
    override_is_factor: bool,
    xsettings: bool,
    resource: bool,
) -> ScaleSource {
    if asks_for_randr(scale_override) {
        ScaleSource::Display
    } else if scale_override is Some && override_is_factor {
        ScaleSource::Override
    } else if xsettings {
        ScaleSource::Xsettings
    } else if resource {
        ScaleSource::XResource
    } else {
        ScaleSource::Display
    }
}

/// Which source decides the scale factor.
///
/// `override_is_factor` says whether the override spells a positive, normal
/// number; `xsettings` whether the settings manager published a DPI; `resource`
/// whether the `Xft.dpi` resource spells a number. An unusable override hands
/// the chain on instead of being used.
pub fn scale_source(
    scale_override: Option<&str>,
    override_is_factor: bool,
    xsettings: bool,
    resource: bool,
) -> (source: ScaleSource)
    ensures
        source == scale_source_of(
            opt_text(scale_override),
            override_is_factor,
            xsettings,
            resource,
        ),
        scale_override matches Some(raw) && is_the_word_randr(raw@) ==> source
            == ScaleSource::Display,
        scale_override matches Some(raw) && !is_the_word_randr(raw@) && override_is_factor
            ==> source == ScaleSource::Override,
        scale_override is None || !override_is_factor ==> source != ScaleSource::Override,
        (scale_override matches Some(raw) ==> !is_the_word_randr(raw@) && !override_is_factor)
            ==> source == (if xsettings {
            ScaleSource::Xsettings
        } else if resource {
            ScaleSource::XResource
        } else {
            ScaleSource::Display
        }),
{
    proof {
        lemma_randr_in_any_case(opt_text(scale_override));
    }
    if let Some(raw) = scale_override {
        let chars: Vec<char> = text::chars_of(raw);
        let randr: Vec<char> = text::chars_of("randr");
        if text::eq_ignore_ascii_case(chars.as_slice(), randr.as_slice()) {
            return ScaleSource::Display;
        }
        if override_is_factor {
            return ScaleSource::Override;
        }
    }
    if xsettings {
        ScaleSource::Xsettings
    } else if resource {
        ScaleSource::XResource
    } else {
        ScaleSource::Display
    }
}

/// The scale that the sources give, each in the backend's own number type.
pub open spec fn scale_from<S>(
    scale_override: Option<Seq<char>>,
    factor: Option<S>,
    xsettings: Option<S>,
    resource: Option<S>,
    measured: S,
) -> S {
    match scale_source_of(
        scale_override,
        factor is Some,
        xsettings is Some,
        resource is Some,
    ) {
        ScaleSource::Override => factor->0,
        ScaleSource::Xsettings => xsettings->0,
        ScaleSource::XResource => resource->0,
        ScaleSource::Display => measured,
    }
}

/// The scale factor of a window, before an unusable one is neutralised.
///
/// `factor` is the factor that the override spells, if it spells a positive,
/// normal number; `xsettings` and `resource` are the scales that the two DPI
/// sources give, where they give one; `measured` is the display's own.
pub fn scale_factor<S>(
    scale_override: Option<&str>,
    factor: Option<S>,
    xsettings: Option<S>,
    resource: Option<S>,
    measured: S,
) -> (scale: S)
    ensures
        scale == scale_from(opt_text(scale_override), factor, xsettings, resource, measured),
        scale_override matches Some(raw) && is_the_word_randr(raw@) ==> scale == measured,
        scale_override matches Some(raw) && !is_the_word_randr(raw@) ==> (factor matches Some(f)
            ==> scale == f),
        (scale_override matches Some(raw) ==> !is_the_word_randr(raw@) && factor is None) ==> {
            &&& xsettings matches Some(x) ==> scale == x
            &&& xsettings is None ==> (resource matches Some(r) ==> scale == r)
            &&& xsettings is None && resource is None ==> scale == measured
        },
{
    match scale_source(
        scale_override,
        factor.is_some(),
        xsettings.is_some(),
        resource.is_some(),
    ) {
        ScaleSource::Override => match factor {
            Some(scale) => scale,
            None => measured,
        },
        ScaleSource::Xsettings => match xsettings {
            Some(scale) => scale,
            None => measured,
        },
        ScaleSource::XResource => match resource {
            Some(scale) => scale,
            None => measured,
        },
        ScaleSource::Display => measured,
    }
}

/// An override that spells a factor, and is not the word `randr`, decides alone:
/// whatever the other sources say, its factor is the scale.
pub proof fn law_override_factor_decides_alone<S>(
    raw: Seq<char>,
    factor: S,
    xsettings: Option<S>,
    resource: Option<S>,
    measured: S,
)
    requires
        !is_the_word_randr(raw),
    ensures
        scale_from(Some(raw), Some(factor), xsettings, resource, measured) == factor,
{
    lemma_randr_in_any_case(Some(raw));
}

/// The word `randr`, in any case, has the display measured, whatever the other
/// sources say.
pub proof fn law_randr_measures_the_display<S>(
    raw: Seq<char>,
    factor: Option<S>,
    xsettings: Option<S>,
    resource: Option<S>,
    measured: S,
)
    requires
        is_the_word_randr(raw),
    ensures
        scale_from(Some(raw), factor, xsettings, resource, measured) == measured,
{
    lemma_randr_in_any_case(Some(raw));
}

/// Without an override, and with one that is neither the word `randr` nor a
/// factor, the settings manager's scale is returned as it is whatever the resource
/// says; without one the resource's is; with neither the display's own is.
pub proof fn law_sources_without_an_override_in_order<S>(
    scale_override: Option<Seq<char>>,
    factor: Option<S>,
    published: S,
    resource: Option<S>,
    spelled: S,
    measured: S,
)
    requires
        scale_override matches Some(raw) ==> !is_the_word_randr(raw) && factor is None,
    ensures
        scale_from(scale_override, factor, Some(published), resource, measured) == published,
        scale_from(scale_override, factor, None, Some(spelled), measured) == spelled,
        scale_from(scale_override, factor, None, None, measured) == measured,
{
    lemma_randr_in_any_case(scale_override);
}

// -- Which windowing system -----------------------------------------------

/// The windowing system a flyout would be created on.
#[derive(Debug, Clone, Copy, PartialEq, Eq, Structural)]
pub enum WindowSystem {
    /// An X server, reachable through `DISPLAY`.
    X11,
    /// A Wayland compositor.
    Wayland,
    /// No display server: a TTY, a service unit, or a login with no forwarding.
    Neither,
}

/// The environment variables that decide it.
#[derive(Debug, Clone, Copy)]
pub struct DisplayEnv<'a> {
    /// `WAYLAND_DISPLAY`.
    pub wayland_display: Option<&'a str>,
    /// `WAYLAND_SOCKET`: a compositor handing a connected descriptor to a client
    /// it launched itself.
    pub wayland_socket: Option<&'a str>,
    /// `DISPLAY`.
    pub display: Option<&'a str>,
}

/// Whether a variable is set to something; an empty value counts as unset.
pub open spec fn is_set(value: Option<&str>) -> bool {
    value matches Some(v) && v@.len() > 0
}

fn set(value: Option<&str>) -> (yes: bool)
    ensures
        yes == is_set(value),
{
    match value {
        Some(v) => !v.is_empty(),
        None => false,
    }
}

/// Which windowing system a flyout would be created on.
///
/// Wayland wins when both are set: nearly every Wayland session also runs
/// Xwayland and sets `DISPLAY`.
pub fn window_system(env: DisplayEnv<'_>) -> (system: WindowSystem)
    ensures
        system == (if is_set(env.wayland_display) || is_set(env.wayland_socket) {
            WindowSystem::Wayland
        } else if is_set(env.display) {
            WindowSystem::X11
        } else {
            WindowSystem::Neither
        }),
        env.wayland_display matches Some(v) && v@.len() > 0 ==> system == WindowSystem::Wayland,
        env.wayland_socket matches Some(v) && v@.len() > 0 ==> system == WindowSystem::Wayland,
        (env.wayland_display matches Some(v) ==> v@.len() == 0) && (
        env.wayland_socket matches Some(v) ==> v@.len() == 0) ==> system == (
        if env.display matches Some(v) && v@.len() > 0 {
            WindowSystem::X11
        } else {
            WindowSystem::Neither
        }),
{
    if set(env.wayland_display) || set(env.wayland_socket) {
        WindowSystem::Wayland
    } else if set(env.display) {
        WindowSystem::X11
    } else {
        WindowSystem::Neither
    }
}

// -- What the work area promises ------------------------------------------

proof fn lemma_edges_pass_every_band(m: WorkRect, screen: X11Screen, struts: Seq<X11Strut>)
    ensures
        m.x <= left_edge(m, struts),
        right_edge(m, screen, struts) <= m.right(),
        m.y <= top_edge(m, struts),
        bottom_edge(m, screen, struts) <= m.bottom(),
        forall|i: int|
            0 <= i < struts.len() && accepts_left(#[trigger] struts[i], m) ==> struts[i].left
                <= left_edge(m, struts),
        forall|i: int|
            0 <= i < struts.len() && accepts_right(#[trigger] struts[i], m) ==> right_edge(
                m,
                screen,
                struts,
            ) <= screen.width - struts[i].right,
        forall|i: int|
            0 <= i < struts.len() && accepts_top(#[trigger] struts[i], m) ==> struts[i].top
                <= top_edge(m, struts),
        forall|i: int|
            0 <= i < struts.len() && accepts_bottom(#[trigger] struts[i], m) ==> bottom_edge(
                m,
                screen,
                struts,
            ) <= screen.height - struts[i].bottom,
    decreases struts.len(),
{
    if struts.len() > 0 {
        let rest = struts.drop_last();
        lemma_edges_pass_every_band(m, screen, rest);
        assert forall|i: int| 0 <= i < struts.len() implies #[trigger] struts[i] == (if i
            < rest.len() {
            rest[i]
        } else {
            struts.last()
        }) by {}
        assert forall|i: int|
            0 <= i < struts.len() && accepts_left(#[trigger] struts[i], m) implies struts[i].left
            <= left_edge(m, struts) by {
            if i < rest.len() {
                assert(accepts_left(rest[i], m));
            }
        }
        assert forall|i: int|
            0 <= i < struts.len() && accepts_right(#[trigger] struts[i], m) implies right_edge(
            m,
            screen,
            struts,
        ) <= screen.width - struts[i].right by {
            if i < rest.len() {
                assert(accepts_right(rest[i], m));
            }
        }
        assert forall|i: int|
            0 <= i < struts.len() && accepts_top(#[trigger] struts[i], m) implies struts[i].top
            <= top_edge(m, struts) by {
            if i < rest.len() {
                assert(accepts_top(rest[i], m));
            }
        }
        assert forall|i: int|
            0 <= i < struts.len() && accepts_bottom(#[trigger] struts[i], m) implies bottom_edge(
            m,
            screen,
            struts,
        ) <= screen.height - struts[i].bottom by {
            if i < rest.len() {
                assert(accepts_bottom(rest[i], m));
            }
        }
    }
}

/// On columns the struts did not empty, the work area lies beyond every accepted
/// left band and before every accepted right one.
pub proof fn law_surviving_columns_exclude_every_accepted_band(
    m: WorkRect,
    screen: X11Screen,
    struts: Seq<X11Strut>,
    i: int,
    x: int,
)
    requires
        0 <= i < struts.len(),
        !columns_emptied(m, screen, struts),
        work_rect(m, screen, struts).x <= x < work_rect(m, screen, struts).right(),
    ensures
        accepts_left(struts[i], m) ==> struts[i].left <= x,
        accepts_right(struts[i], m) ==> x < screen.width - struts[i].right,
{
    lemma_edges_pass_every_band(m, screen, struts);
}

/// On rows the struts did not empty, the work area lies below every accepted top
/// band and above every accepted bottom one.
pub proof fn law_surviving_rows_exclude_every_accepted_band(
    m: WorkRect,
    screen: X11Screen,
    struts: Seq<X11Strut>,
    i: int,
    y: int,
)
    requires
        0 <= i < struts.len(),
        !rows_emptied(m, screen, struts),
        work_rect(m, screen, struts).y <= y < work_rect(m, screen, struts).bottom(),
    ensures
        accepts_top(struts[i], m) ==> struts[i].top <= y,
        accepts_bottom(struts[i], m) ==> y < screen.height - struts[i].bottom,
{
    lemma_edges_pass_every_band(m, screen, struts);
}

/// Whether a point lies in one of the bands of `s` that monitor `m` accepts.
pub open spec fn in_accepted_band(
    s: X11Strut,
    m: WorkRect,
    screen: X11Screen,
    x: int,
    y: int,
) -> bool {
    ||| accepts_left(s, m) && x < s.left && s.left_start_y <= y <= s.left_end_y
    ||| accepts_right(s, m) && x >= screen.width - s.right && s.right_start_y <= y <= s.right_end_y
    ||| accepts_top(s, m) && y < s.top && s.top_start_x <= x <= s.top_end_x
    ||| accepts_bottom(s, m) && y >= screen.height - s.bottom && s.bottom_start_x <= x
        <= s.bottom_end_x
}

/// When neither axis was emptied, the work area overlaps no accepted band.
pub proof fn law_work_area_overlaps_no_accepted_band(
    m: WorkRect,
    screen: X11Screen,
    struts: Seq<X11Strut>,
    i: int,
    x: int,
    y: int,
)
    requires
        0 <= i < struts.len(),
        !columns_emptied(m, screen, struts),
        !rows_emptied(m, screen, struts),
        work_rect(m, screen, struts).covers(x, y),
    ensures
        !in_accepted_band(struts[i], m, screen, x, y),
{
    lemma_edges_pass_every_band(m, screen, struts);
}

/// The work area lies inside its monitor, and its far edges are still `i32`
/// coordinates.
pub proof fn law_work_area_stays_on_its_monitor(
    m: WorkRect,
    screen: X11Screen,
    struts: Seq<X11Strut>,
)
    ensures
        ({
            let work = work_rect(m, screen, struts);
            &&& m.x <= work.x
            &&& work.right() <= m.right()
            &&& m.y <= work.y
            &&& work.bottom() <= m.bottom()
            &&& work.right() <= i32::MAX
            &&& work.bottom() <= i32::MAX
        }),
{
    lemma_edges_pass_every_band(m, screen, struts);
}

/// An emptied axis is given back in full (as far as it fits in `i32`), and the
/// other axis keeps its reservations.
pub proof fn law_emptied_axis_is_given_back(m: WorkRect, screen: X11Screen, struts: Seq<X11Strut>)
    ensures
        ({
            let work = work_rect(m, screen, struts);
            &&& columns_emptied(m, screen, struts) ==> work.x == m.x && (m.right() <= i32::MAX
                && m.w <= MAX_EXTENT ==> work.w == m.w)
            &&& rows_emptied(m, screen, struts) ==> work.y == m.y && (m.bottom() <= i32::MAX && m.h
                <= MAX_EXTENT ==> work.h == m.h)
            &&& !columns_emptied(m, screen, struts) ==> work.x == clamped_coord(
                left_edge(m, struts),
            )
            &&& !rows_emptied(m, screen, struts) ==> work.y == clamped_coord(top_edge(m, struts))
        }),
{
    lemma_edges_pass_every_band(m, screen, struts);
}

/// A monitor that has pixels keeps some of them: no set of struts makes the work
/// area of a monitor inside the coordinate space empty.
pub proof fn law_work_area_is_never_empty(m: WorkRect, screen: X11Screen, struts: Seq<X11Strut>)
    requires
        m.w > 0,
        m.h > 0,
        m.right() <= i32::MAX,
        m.bottom() <= i32::MAX,
    ensures
        work_rect(m, screen, struts).w > 0,
        work_rect(m, screen, struts).h > 0,
{
    lemma_edges_pass_every_band(m, screen, struts);
}

proof fn lemma_edges_attained(m: WorkRect, screen: X11Screen, struts: Seq<X11Strut>)
    ensures
        left_edge(m, struts) == m.x || exists|i: int|
            0 <= i < struts.len() && accepts_left(#[trigger] struts[i], m) && struts[i].left
                == left_edge(m, struts),
        right_edge(m, screen, struts) == m.right() || exists|i: int|
            0 <= i < struts.len() && accepts_right(#[trigger] struts[i], m) && screen.width
                - struts[i].right == right_edge(m, screen, struts),
        top_edge(m, struts) == m.y || exists|i: int|
            0 <= i < struts.len() && accepts_top(#[trigger] struts[i], m) && struts[i].top
                == top_edge(m, struts),
        bottom_edge(m, screen, struts) == m.bottom() || exists|i: int|
            0 <= i < struts.len() && accepts_bottom(#[trigger] struts[i], m) && screen.height
                - struts[i].bottom == bottom_edge(m, screen, struts),
    decreases struts.len(),
{
    if struts.len() > 0 {
        let rest = struts.drop_last();
        lemma_edges_attained(m, screen, rest);
        assert(struts[struts.len() - 1] == struts.last());
        assert forall|i: int| 0 <= i < rest.len() implies #[trigger] rest[i] == struts[i] by {}
    }
}

/// Whether column `c` is one of the monitor's.
pub open spec fn has_column(m: WorkRect, c: int) -> bool {
    m.x <= c < m.x + m.w
}

/// Whether row `r` is one of the monitor's.
pub open spec fn has_row(m: WorkRect, r: int) -> bool {
    m.y <= r < m.y + m.h
}

/// Whether some column of the monitor is among `start ..= end`.
pub open spec fn shares_column(m: WorkRect, start: int, end: int) -> bool {
    exists|c: int| #[trigger] has_column(m, c) && start <= c <= end
}

/// Whether some row of the monitor is among `start ..= end`.
pub open spec fn shares_row(m: WorkRect, start: int, end: int) -> bool {
    exists|r: int| #[trigger] has_row(m, r) && start <= r <= end
}

/// Whether a panel along the left or right of the screen, beside some row of the
/// monitor, covers column `x`.
pub open spec fn takes_column(s: X11Strut, m: WorkRect, screen: X11Screen, x: int) -> bool {
    ||| s.left > 0 && x < s.left && shares_row(m, s.left_start_y as int, s.left_end_y as int)
    ||| s.right > 0 && x >= screen.width - s.right && shares_row(
        m,
        s.right_start_y as int,
        s.right_end_y as int,
    )
}

/// Whether a panel along the top or bottom of the screen, over some column of the
/// monitor, covers row `y`.
pub open spec fn takes_row(s: X11Strut, m: WorkRect, screen: X11Screen, y: int) -> bool {
    ||| s.top > 0 && y < s.top && shares_column(m, s.top_start_x as int, s.top_end_x as int)
    ||| s.bottom > 0 && y >= screen.height - s.bottom && shares_column(
        m,
        s.bottom_start_x as int,
        s.bottom_end_x as int,
    )
}

/// Whether column `x` of the monitor is under no panel beside it.
pub open spec fn free_column(m: WorkRect, screen: X11Screen, struts: Seq<X11Strut>, x: int) -> bool {
    &&& has_column(m, x)
    &&& forall|i: int| 0 <= i < struts.len() ==> !takes_column(#[trigger] struts[i], m, screen, x)
}

/// Whether row `y` of the monitor is under no panel above or below it.
pub open spec fn free_row(m: WorkRect, screen: X11Screen, struts: Seq<X11Strut>, y: int) -> bool {
    &&& has_row(m, y)
    &&& forall|i: int| 0 <= i < struts.len() ==> !takes_row(#[trigger] struts[i], m, screen, y)
}

/// A band is accepted by a monitor that has rows exactly when one of those rows is
/// in it, a row being one integer; likewise for columns.
pub proof fn law_bands_meet_where_they_share_a_pixel(m: WorkRect, start: int, end: int)
    ensures
        shares_row(m, start, end) ==> meets(start, end, m.y as int, m.y + m.h),
        m.h > 0 && meets(start, end, m.y as int, m.y + m.h) ==> shares_row(m, start, end),
        shares_column(m, start, end) ==> meets(start, end, m.x as int, m.x + m.w),
        m.w > 0 && meets(start, end, m.x as int, m.x + m.w) ==> shares_column(m, start, end),
{
    if m.h > 0 && meets(start, end, m.y as int, m.y + m.h) {
        assert(has_row(
            m,
            if start < m.y {
                m.y as int
            } else {
                start
            },
        ));
    }
    if m.w > 0 && meets(start, end, m.x as int, m.x + m.w) {
        assert(has_column(
            m,
            if start < m.x {
                m.x as int
            } else {
                start
            },
        ));
    }
}

proof fn lemma_free_columns_lie_between_the_edges(
    m: WorkRect,
    screen: X11Screen,
    struts: Seq<X11Strut>,
    x: int,
)
    requires
        m.h > 0,
    ensures
        free_column(m, screen, struts, x) <==> left_edge(m, struts) <= x < right_edge(
            m,
            screen,
            struts,
        ),
{
    lemma_edges_pass_every_band(m, screen, struts);
    lemma_edges_attained(m, screen, struts);
    assert forall|i: int| 0 <= i < struts.len() implies {
        let s = #[trigger] struts[i];
        &&& accepts_left(s, m) <==> s.left > 0 && shares_row(
            m,
            s.left_start_y as int,
            s.left_end_y as int,
        )
        &&& accepts_right(s, m) <==> s.right > 0 && shares_row(
            m,
            s.right_start_y as int,
            s.right_end_y as int,
        )
    } by {
        let s = struts[i];
        law_bands_meet_where_they_share_a_pixel(m, s.left_start_y as int, s.left_end_y as int);
        law_bands_meet_where_they_share_a_pixel(m, s.right_start_y as int, s.right_end_y as int);
    }
}

proof fn lemma_free_rows_lie_between_the_edges(
    m: WorkRect,
    screen: X11Screen,
    struts: Seq<X11Strut>,
    y: int,
)
    requires
        m.w > 0,
    ensures
        free_row(m, screen, struts, y) <==> top_edge(m, struts) <= y < bottom_edge(
            m,
            screen,
            struts,
        ),
{
    lemma_edges_pass_every_band(m, screen, struts);
    lemma_edges_attained(m, screen, struts);
    assert forall|i: int| 0 <= i < struts.len() implies {
        let s = #[trigger] struts[i];
        &&& accepts_top(s, m) <==> s.top > 0 && shares_column(
            m,
            s.top_start_x as int,
            s.top_end_x as int,
        )
        &&& accepts_bottom(s, m) <==> s.bottom > 0 && shares_column(
            m,
            s.bottom_start_x as int,
            s.bottom_end_x as int,
        )
    } by {
        let s = struts[i];
        law_bands_meet_where_they_share_a_pixel(m, s.top_start_x as int, s.top_end_x as int);
        law_bands_meet_where_they_share_a_pixel(m, s.bottom_start_x as int, s.bottom_end_x as int);
    }
}

/// The columns of the work area are exactly the monitor's free columns, and all of
/// the monitor's columns where none is free (as far as they fit in `i32`).
pub proof fn law_work_columns_are_the_free_columns(
    m: WorkRect,
    screen: X11Screen,
    struts: Seq<X11Strut>,
    x: int,
)
    requires
        m.h > 0,
    ensures
        ({
            let work = work_rect(m, screen, struts);
            let some_free = exists|c: int| #[trigger] free_column(m, screen, struts, c);
            &&& some_free ==> (work.x <= x < work.x + work.w <==> free_column(m, screen, struts, x)
                && x < i32::MAX && x - work.x < i32::MAX)
            &&& !some_free ==> work.x == m.x
            &&& !some_free ==> (work.x <= x < work.x + work.w <==> m.x <= x < m.x + m.w && x
                < i32::MAX && x - m.x < i32::MAX)
        }),
{
    lemma_edges_pass_every_band(m, screen, struts);
    lemma_free_columns_lie_between_the_edges(m, screen, struts, x);
    lemma_free_columns_lie_between_the_edges(m, screen, struts, left_edge(m, struts));
    if exists|c: int| #[trigger] free_column(m, screen, struts, c) {
        let c = choose|c: int| #[trigger] free_column(m, screen, struts, c);
        lemma_free_columns_lie_between_the_edges(m, screen, struts, c);
        assert(!columns_emptied(m, screen, struts));
    } else {
        assert(!free_column(m, screen, struts, left_edge(m, struts)));
        assert(columns_emptied(m, screen, struts));
    }
}

/// The rows of the work area are exactly the monitor's free rows, and all of the
/// monitor's rows where none is free (as far as they fit in `i32`).
pub proof fn law_work_rows_are_the_free_rows(
    m: WorkRect,
    screen: X11Screen,
    struts: Seq<X11Strut>,
    y: int,
)
    requires
        m.w > 0,
    ensures
        ({
            let work = work_rect(m, screen, struts);
            let some_free = exists|r: int| #[trigger] free_row(m, screen, struts, r);
            &&& some_free ==> (work.y <= y < work.y + work.h <==> free_row(m, screen, struts, y)
                && y < i32::MAX && y - work.y < i32::MAX)
            &&& !some_free ==> work.y == m.y
            &&& !some_free ==> (work.y <= y < work.y + work.h <==> m.y <= y < m.y + m.h && y
                < i32::MAX && y - m.y < i32::MAX)
        }),
{
    lemma_edges_pass_every_band(m, screen, struts);
    lemma_free_rows_lie_between_the_edges(m, screen, struts, y);
    lemma_free_rows_lie_between_the_edges(m, screen, struts, top_edge(m, struts));
    if exists|r: int| #[trigger] free_row(m, screen, struts, r) {
        let r = choose|r: int| #[trigger] free_row(m, screen, struts, r);
        lemma_free_rows_lie_between_the_edges(m, screen, struts, r);
        assert(!rows_emptied(m, screen, struts));
    } else {
        assert(!free_row(m, screen, struts, top_edge(m, struts)));
        assert(rows_emptied(m, screen, struts));
    }
}

/// A panel along the top or bottom of the screen that hangs over one column `c` of
/// the monitor is kept clear of, wherever along the edge it sits, as long as some
/// row `free` of the monitor is under no such panel.
pub proof fn law_panel_over_one_column_is_kept_clear(
    m: WorkRect,
    screen: X11Screen,
    struts: Seq<X11Strut>,
    i: int,
    c: int,
    free: int,
)
    requires
        0 <= i < struts.len(),
        m.x <= c < m.x + m.w,
        free_row(m, screen, struts, free),
    ensures
        ({
            let s = struts[i];
            let work = work_rect(m, screen, struts);
            &&& s.bottom > 0 && s.bottom_start_x <= c <= s.bottom_end_x ==> work.y + work.h
                <= screen.height - s.bottom
            &&& s.top > 0 && s.top_start_x <= c <= s.top_end_x ==> s.top <= work.y || work.y
                == i32::MAX
        }),
{
    let s = struts[i];
    assert(has_column(m, c));
    law_bands_meet_where_they_share_a_pixel(m, s.top_start_x as int, s.top_end_x as int);
    law_bands_meet_where_they_share_a_pixel(m, s.bottom_start_x as int, s.bottom_end_x as int);
    lemma_edges_pass_every_band(m, screen, struts);
    lemma_free_rows_lie_between_the_edges(m, screen, struts, free);
}

/// A panel along the left or right of the screen that stands beside one row `r` of
/// the monitor is kept clear of, wherever along the edge it sits, as long as some
/// column `free` of the monitor is under no such panel.
pub proof fn law_panel_beside_one_row_is_kept_clear(
    m: WorkRect,
    screen: X11Screen,
    struts: Seq<X11Strut>,
    i: int,
    r: int,
    free: int,
)
    requires
        0 <= i < struts.len(),
        m.y <= r < m.y + m.h,
        free_column(m, screen, struts, free),
    ensures
        ({
            let s = struts[i];
            let work = work_rect(m, screen, struts);
            &&& s.right > 0 && s.right_start_y <= r <= s.right_end_y ==> work.x + work.w
                <= screen.width - s.right
            &&& s.left > 0 && s.left_start_y <= r <= s.left_end_y ==> s.left <= work.x || work.x
                == i32::MAX
        }),
{
    let s = struts[i];
    assert(has_row(m, r));
    law_bands_meet_where_they_share_a_pixel(m, s.left_start_y as int, s.left_end_y as int);
    law_bands_meet_where_they_share_a_pixel(m, s.right_start_y as int, s.right_end_y as int);
    lemma_edges_pass_every_band(m, screen, struts);
    lemma_free_columns_lie_between_the_edges(m, screen, struts, free);
}

/// A monitor that no panel shares a row or a column with is left whole.
pub proof fn law_untouched_monitor_is_left_whole(
    m: WorkRect,
    screen: X11Screen,
    struts: Seq<X11Strut>,
)
    requires
        m.w > 0,
        m.h > 0,
        m.x + m.w <= i32::MAX,
        m.y + m.h <= i32::MAX,
        m.w <= i32::MAX,
        m.h <= i32::MAX,
        forall|i: int, r: int|
            0 <= i < struts.len() && #[trigger] has_row(m, r) ==> {
                let s = #[trigger] struts[i];
                &&& s.left > 0 ==> !(s.left_start_y <= r <= s.left_end_y)
                &&& s.right > 0 ==> !(s.right_start_y <= r <= s.right_end_y)
            },
        forall|i: int, c: int|
            0 <= i < struts.len() && #[trigger] has_column(m, c) ==> {
                let s = #[trigger] struts[i];
                &&& s.top > 0 ==> !(s.top_start_x <= c <= s.top_end_x)
                &&& s.bottom > 0 ==> !(s.bottom_start_x <= c <= s.bottom_end_x)
            },
    ensures
        work_rect(m, screen, struts) == m,
{
    assert forall|i: int| 0 <= i < struts.len() implies !accepts_left(#[trigger] struts[i], m)
        && !accepts_right(struts[i], m) && !accepts_top(struts[i], m) && !accepts_bottom(
        struts[i],
        m,
    ) by {
        let s = struts[i];
        law_bands_meet_where_they_share_a_pixel(m, s.left_start_y as int, s.left_end_y as int);
        law_bands_meet_where_they_share_a_pixel(m, s.right_start_y as int, s.right_end_y as int);
        law_bands_meet_where_they_share_a_pixel(m, s.top_start_x as int, s.top_end_x as int);
        law_bands_meet_where_they_share_a_pixel(m, s.bottom_start_x as int, s.bottom_end_x as int);
    }
    lemma_edges_attained(m, screen, struts);
}

/// Two edges made from the same struts, in whatever order, agree.
proof fn lemma_edges_ignore_order(
    m: WorkRect,
    screen: X11Screen,
    a: Seq<X11Strut>,
    b: Seq<X11Strut>,
)
    requires
        forall|i: int| 0 <= i < a.len() ==> b.contains(#[trigger] a[i]),
        forall|i: int| 0 <= i < b.len() ==> a.contains(#[trigger] b[i]),
    ensures
        left_edge(m, a) == left_edge(m, b),
        right_edge(m, screen, a) == right_edge(m, screen, b),
        top_edge(m, a) == top_edge(m, b),
        bottom_edge(m, screen, a) == bottom_edge(m, screen, b),
{
    lemma_edges_pass_every_band(m, screen, a);
    lemma_edges_pass_every_band(m, screen, b);
    lemma_edges_attained(m, screen, a);
    lemma_edges_attained(m, screen, b);
    assert forall|i: int| 0 <= i < a.len() implies exists|j: int|
        0 <= j < b.len() && #[trigger] b[j] == #[trigger] a[i] by {
        assert(b.contains(a[i]));
    }
    assert forall|i: int| 0 <= i < b.len() implies exists|j: int|
        0 <= j < a.len() && #[trigger] a[j] == #[trigger] b[i] by {
        assert(a.contains(b[i]));
    }
}

/// The work area depends on which struts there are, not on the order the
/// windows were listed in nor on a strut being listed twice.
pub proof fn law_work_area_ignores_strut_order(
    m: WorkRect,
    screen: X11Screen,
    a: Seq<X11Strut>,
    b: Seq<X11Strut>,
)
    requires
        a.to_set() == b.to_set(),
    ensures
        work_rect(m, screen, a) == work_rect(m, screen, b),
{
    assert forall|i: int| 0 <= i < a.len() implies b.contains(#[trigger] a[i]) by {
        assert(a.to_set().contains(a[i]));
    }
    assert forall|i: int| 0 <= i < b.len() implies a.contains(#[trigger] b[i]) by {
        assert(b.to_set().contains(b[i]));
    }
    lemma_edges_ignore_order(m, screen, a, b);
}

/// A strut with no depth changes nothing, however its ranges are set.
pub proof fn law_idle_strut_changes_nothing(
    m: WorkRect,
    screen: X11Screen,
    struts: Seq<X11Strut>,
    idle: X11Strut,
)
    requires
        !idle.reserves(),
    ensures
        work_rect(m, screen, struts.push(idle)) == work_rect(m, screen, struts),
{
    assert(struts.push(idle).drop_last() == struts);
}

/// Several panels on one edge reserve as much as the deepest of them, not their
/// sum: each edge passes every accepted band, and unless it is the monitor's own
/// edge it is that of one of them.
pub proof fn law_deepest_reservation_wins(m: WorkRect, screen: X11Screen, struts: Seq<X11Strut>)
    ensures
        forall|i: int|
            0 <= i < struts.len() && accepts_left(#[trigger] struts[i], m) ==> struts[i].left
                <= left_edge(m, struts),
        left_edge(m, struts) == m.x || exists|i: int|
            0 <= i < struts.len() && accepts_left(#[trigger] struts[i], m) && struts[i].left
                == left_edge(m, struts),
        forall|i: int|
            0 <= i < struts.len() && accepts_right(#[trigger] struts[i], m) ==> right_edge(
                m,
                screen,
                struts,
            ) <= screen.width - struts[i].right,
        right_edge(m, screen, struts) == m.right() || exists|i: int|
            0 <= i < struts.len() && accepts_right(#[trigger] struts[i], m) && screen.width
                - struts[i].right == right_edge(m, screen, struts),
        forall|i: int|
            0 <= i < struts.len() && accepts_top(#[trigger] struts[i], m) ==> struts[i].top
                <= top_edge(m, struts),
        top_edge(m, struts) == m.y || exists|i: int|
            0 <= i < struts.len() && accepts_top(#[trigger] struts[i], m) && struts[i].top
                == top_edge(m, struts),
        forall|i: int|
            0 <= i < struts.len() && accepts_bottom(#[trigger] struts[i], m) ==> bottom_edge(
                m,
                screen,
                struts,
            ) <= screen.height - struts[i].bottom,
        bottom_edge(m, screen, struts) == m.bottom() || exists|i: int|
            0 <= i < struts.len() && accepts_bottom(#[trigger] struts[i], m) && screen.height
                - struts[i].bottom == bottom_edge(m, screen, struts),
{
    lemma_edges_pass_every_band(m, screen, struts);
    lemma_edges_attained(m, screen, struts);
}

/// A coordinate that fits in `i32` is kept and any other becomes the nearest that does;
/// an extent likewise between none and `i32::MAX`; and a squared distance up to
/// `i64::MAX`.
pub proof fn law_saturation_keeps_what_fits(v: int)
    ensures
        i32::MIN <= v <= i32::MAX ==> clamped_coord(v) == v,
        v < i32::MIN ==> clamped_coord(v) == i32::MIN,
        v > i32::MAX ==> clamped_coord(v) == i32::MAX,
        0 <= v <= i32::MAX ==> clamped_extent(v) == v,
        v < 0 ==> clamped_extent(v) == 0,
        v > i32::MAX ==> clamped_extent(v) == i32::MAX,
        v <= i64::MAX ==> saturated(v) == v,
        v > i64::MAX ==> saturated(v) == i64::MAX,
{
}

/// The rectangle between four edges that fit in `i32`, and are no farther apart than
/// that, has exactly those edges; a far edge that is not beyond the near one leaves no
/// extent.
pub proof fn law_rectangle_has_its_edges(left: int, top: int, right: int, bottom: int)
    requires
        i32::MIN <= left <= i32::MAX,
        i32::MIN <= top <= i32::MAX,
        right <= i32::MAX,
        bottom <= i32::MAX,
        right - left <= i32::MAX,
        bottom - top <= i32::MAX,
    ensures
        ({
            let rect = rect_between(left, top, right, bottom);
            &&& rect.x == left && rect.y == top
            &&& left <= right ==> rect.x + rect.w == right
            &&& left > right ==> rect.w == 0
            &&& top <= bottom ==> rect.y + rect.h == bottom
            &&& top > bottom ==> rect.h == 0
        }),
{
}

} // verus!
