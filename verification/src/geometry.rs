//! Screen geometry for anchoring a tray flyout: the rectangle a window may be
//! placed in, and the unit it is measured in.
//!
//! Coordinates have a top-left origin with y increasing downward, in the unit
//! the platform's own window-positioning API expects: physical pixels on Windows
//! and X11, points on macOS.

use vstd::prelude::*;

verus! {

/// The largest extent any backend reports, `i32::MAX`.
///
/// Keeping every backend under one cap means an origin plus an extent stays in
/// the `i32` space the anchor is expressed in.
pub const MAX_EXTENT: u32 = 2_147_483_647;

/// A rectangle in the platform's window-positioning unit, y-down.
///
/// The origin may be negative: a monitor left of or above the primary one has
/// negative coordinates in the desktop space.
#[derive(Debug, Clone, Copy, PartialEq, Eq, Structural)]
pub struct WorkRect {
    /// Left edge.
    pub x: i32,
    /// Top edge.
    pub y: i32,
    /// Width.
    pub w: u32,
    /// Height.
    pub h: u32,
}

impl WorkRect {
    /// The column past the last one.
    pub open spec fn right(self) -> int {
        self.x + self.w
    }

    /// The row past the last one.
    pub open spec fn bottom(self) -> int {
        self.y + self.h
    }

    /// Whether column `x` of row `y` lies in the rectangle.
    pub open spec fn covers(self, x: int, y: int) -> bool {
        self.x <= x < self.right() && self.y <= y < self.bottom()
    }
}

/// The unit an anchor's coordinates are expressed in.
#[derive(Debug, Clone, Copy, PartialEq, Eq, Structural)]
pub enum AnchorUnit {
    /// Physical device pixels: the Windows backend, X11, and every fallback.
    PhysicalPixels,
    /// Points, macOS's backing-independent unit.
    Points,
}

/// A conversion factor, before a scale is put in.
#[derive(Debug, Clone, Copy, PartialEq, Eq, Structural)]
pub enum Factor {
    /// Multiply by one.
    One,
    /// Multiply by the monitor's scale, or by one where that is unusable.
    Scale,
}

impl AnchorUnit {
    /// What a logical size is multiplied by to reach anchor units.
    pub open spec fn to_anchor(self) -> Factor {
        match self {
            AnchorUnit::PhysicalPixels => Factor::Scale,
            AnchorUnit::Points => Factor::One,
        }
    }

    /// What an anchor coordinate is multiplied by to reach physical pixels.
    pub open spec fn to_physical(self) -> Factor {
        match self {
            AnchorUnit::PhysicalPixels => Factor::One,
            AnchorUnit::Points => Factor::Scale,
        }
    }

    /// The factor from a logical (design-unit) size to anchor units.
    pub fn logical_to_anchor(self) -> (factor: Factor)
        ensures
            factor == self.to_anchor(),
    {
        match self {
            AnchorUnit::PhysicalPixels => Factor::Scale,
            AnchorUnit::Points => Factor::One,
        }
    }

    /// The factor from an anchor coordinate to physical pixels.
    pub fn anchor_to_physical(self) -> (factor: Factor)
        ensures
            factor == self.to_physical(),
    {
        match self {
            AnchorUnit::PhysicalPixels => Factor::One,
            AnchorUnit::Points => Factor::Scale,
        }
    }
}

/// On an anchor in physical pixels a logical size is scaled and a coordinate is
/// not; on one in points it is the other way round.
pub proof fn law_pixels_scale_sizes_and_points_scale_coordinates()
    ensures
        AnchorUnit::PhysicalPixels.to_anchor() == Factor::Scale,
        AnchorUnit::PhysicalPixels.to_physical() == Factor::One,
        AnchorUnit::Points.to_anchor() == Factor::One,
        AnchorUnit::Points.to_physical() == Factor::Scale,
{
}

/// From a logical size to physical pixels the scale is applied exactly once,
/// whatever the unit: the two factors only say where.
pub proof fn law_scale_is_applied_exactly_once(unit: AnchorUnit)
    ensures
        (unit.to_anchor() == Factor::Scale) != (unit.to_physical() == Factor::Scale),
{
}

/// The fallback work area when the OS cannot say: a 1080p desktop with a bottom
/// taskbar.
pub fn default_work() -> (rect: WorkRect)
    ensures
        rect == (WorkRect { x: 0, y: 0, w: 1920, h: 1040 }),
{
    WorkRect { x: 0, y: 0, w: 1920, h: 1040 }
}

/// The four edges of a Win32 rectangle; right and bottom are exclusive.
#[derive(Debug, Clone, Copy, PartialEq, Eq, Structural)]
pub struct Edges {
    /// Left edge.
    pub left: i32,
    /// Top edge.
    pub top: i32,
    /// Right edge, exclusive.
    pub right: i32,
    /// Bottom edge, exclusive.
    pub bottom: i32,
}

/// The distance from `near` to `far`, at least zero and at most `i32::MAX`.
pub open spec fn span(near: int, far: int) -> int {
    if far <= near {
        0
    } else if far - near > MAX_EXTENT {
        MAX_EXTENT as int
    } else {
        far - near
    }
}

fn span_of(near: i32, far: i32) -> (extent: u32)
    ensures
        extent == span(near as int, far as int),
{
    let wide: i64 = far as i64 - near as i64;
    if wide <= 0 {
        0
    } else if wide > MAX_EXTENT as i64 {
        MAX_EXTENT
    } else {
        wide as u32
    }
}

/// Convert Win32 edges to a [`WorkRect`]: the origin as given, an inverted
/// extent as zero, an extreme one saturated.
pub fn rect_from(edges: Edges) -> (rect: WorkRect)
    ensures
        rect.x == edges.left,
        rect.y == edges.top,
        rect.w == span(edges.left as int, edges.right as int),
        rect.h == span(edges.top as int, edges.bottom as int),
{
    WorkRect {
        x: edges.left,
        y: edges.top,
        w: span_of(edges.left, edges.right),
        h: span_of(edges.top, edges.bottom),
    }
}

/// An extent reaches from the near edge to the far one, unless the far edge is not
/// beyond the near one, when there is none, or lies more than `i32::MAX` beyond it,
/// when it is `i32::MAX`.
pub proof fn law_extent_reaches_the_far_edge(near: int, far: int)
    ensures
        near <= far <= near + i32::MAX ==> near + span(near, far) == far,
        far < near ==> span(near, far) == 0,
        far > near + i32::MAX ==> span(near, far) == i32::MAX,
{
}

/// The far edges of a converted rectangle are still `i32` coordinates.
pub proof fn law_converted_rect_stays_in_range(edges: Edges)
    ensures
        edges.left + span(edges.left as int, edges.right as int) <= i32::MAX,
        edges.top + span(edges.top as int, edges.bottom as int) <= i32::MAX,
{
}

/// The work area of a monitor, or the fallback where the query failed.
pub fn work_area_or_default(queried: Option<Edges>) -> (rect: WorkRect)
    ensures
        match queried {
            Some(edges) => {
                &&& rect.x == edges.left
                &&& rect.y == edges.top
                &&& rect.w == span(edges.left as int, edges.right as int)
                &&& rect.h == span(edges.top as int, edges.bottom as int)
            },
            None => rect == (WorkRect { x: 0, y: 0, w: 1920, h: 1040 }),
        },
{
    match queried {
        Some(edges) => rect_from(edges),
        None => default_work(),
    }
}

// -- The anchor ---------------------------------------------------------------

/// A scale that a layout can multiply by: the given one if it is usable, else one.
pub open spec fn sane<S>(scale: S, usable: bool, one: S) -> S {
    if usable {
        scale
    } else {
        one
    }
}

/// A usable scale is kept as it is, an unusable one is one.
pub proof fn law_only_an_unusable_scale_is_replaced<S>(scale: S, one: S)
    ensures
        sane(scale, true, one) == scale,
        sane(scale, false, one) == one,
{
}

/// Substitute `one` for a scale factor that a layout could not safely multiply by.
///
/// `usable` is for the number type to say: finite, and not so near zero that a
/// window would collapse. There is no upper bound.
pub fn sane_scale<S>(scale: S, usable: bool, one: S) -> (factor: S)
    ensures
        factor == sane(scale, usable, one),
{
    if usable {
        scale
    } else {
        one
    }
}

/// Where to hang a tray flyout: the cursor, the work area of the monitor under
/// it, and that monitor's scale in the backend's own number type.
#[derive(Debug, PartialEq)]
pub struct TrayAnchor<S> {
    /// Cursor position.
    pub cursor: (i32, i32),
    /// Work area of the monitor under the cursor.
    pub work_area: WorkRect,
    /// Physical pixels per logical pixel on that monitor, as it was measured: the
    /// two conversion factors neutralise an unusable one.
    pub scale: S,
    /// The unit of the cursor and the work area.
    pub unit: AnchorUnit,
}

impl<S: Copy> Clone for TrayAnchor<S> {
    fn clone(&self) -> (copy: Self)
        ensures
            copy == *self,
    {
        *self
    }
}

impl<S: Copy> Copy for TrayAnchor<S> {

}

impl<S: Copy> TrayAnchor<S> {
    /// What a factor is on this anchor, with `one` for the number one; `usable`
    /// says whether the scale can be multiplied by.
    pub open spec fn factor(self, factor: Factor, usable: bool, one: S) -> S {
        match factor {
            Factor::One => one,
            Factor::Scale => sane(self.scale, usable, one),
        }
    }

    /// Multiply a logical (design-unit) size by this to get anchor units.
    pub fn logical_to_anchor(&self, usable: bool, one: S) -> (factor: S)
        ensures
            factor == match self.unit {
                AnchorUnit::PhysicalPixels => sane(self.scale, usable, one),
                AnchorUnit::Points => one,
            },
            factor == self.factor(self.unit.to_anchor(), usable, one),
            self.unit == AnchorUnit::PhysicalPixels && usable ==> factor == self.scale,
            self.unit == AnchorUnit::Points || !usable ==> factor == one,
    {
        match self.unit.logical_to_anchor() {
            Factor::One => one,
            Factor::Scale => sane_scale(self.scale, usable, one),
        }
    }

    /// Multiply an anchor coordinate by this to get physical pixels.
    pub fn anchor_to_physical(&self, usable: bool, one: S) -> (factor: S)
        ensures
            factor == match self.unit {
                AnchorUnit::PhysicalPixels => one,
                AnchorUnit::Points => sane(self.scale, usable, one),
            },
            factor == self.factor(self.unit.to_physical(), usable, one),
            self.unit == AnchorUnit::Points && usable ==> factor == self.scale,
            self.unit == AnchorUnit::PhysicalPixels || !usable ==> factor == one,
    {
        match self.unit.anchor_to_physical() {
            Factor::One => one,
            Factor::Scale => sane_scale(self.scale, usable, one),
        }
    }
}

/// On every anchor one of the two factors is one and the other is the scale, made
/// sane: their product is the sane scale whatever the unit, and an unusable scale
/// leaves both at one.
pub proof fn law_factors_split_the_sane_scale<S: Copy>(anchor: TrayAnchor<S>, usable: bool, one: S)
    ensures
        ({
            let to_anchor = anchor.factor(anchor.unit.to_anchor(), usable, one);
            let to_physical = anchor.factor(anchor.unit.to_physical(), usable, one);
            let scale = sane(anchor.scale, usable, one);
            &&& (to_anchor == scale && to_physical == one) || (to_anchor == one && to_physical
                == scale)
            &&& !usable ==> to_anchor == one && to_physical == one
        }),
{
}

/// In any number type where multiplying by one changes nothing, the product of the
/// two factors is the sane scale, whatever the unit and the scale.
pub proof fn law_factors_multiply_to_the_sane_scale<S: Copy>(
    anchor: TrayAnchor<S>,
    usable: bool,
    one: S,
    times: spec_fn(S, S) -> S,
)
    requires
        forall|x: S| #[trigger] times(one, x) == x,
        forall|x: S| #[trigger] times(x, one) == x,
    ensures
        times(
            anchor.factor(anchor.unit.to_anchor(), usable, one),
            anchor.factor(anchor.unit.to_physical(), usable, one),
        ) == sane(anchor.scale, usable, one),
{
}

/// What the platform said of the cursor and the screen under it.
#[derive(Debug)]
pub enum AnchorQuery<S> {
    /// Windows: the cursor and the work area, where the calls succeeded, and the
    /// monitor's scale.
    Windows {
        /// The cursor.
        cursor: Option<(i32, i32)>,
        /// The work area's edges.
        work: Option<Edges>,
        /// The scale.
        scale: S,
    },
    /// macOS: the anchor, where the screens could be read.
    MacOs(Option<TrayAnchor<S>>),
    /// Linux: which window system the session is on, and the anchor that X11
    /// gave in time.
    Linux {
        /// Whether the session is one that can be measured.
        is_x11: bool,
        /// The measured anchor.
        measured: Option<TrayAnchor<S>>,
    },
    /// A platform without a geometry backend.
    NoBackend,
}

/// The anchor of a query that could not be answered.
pub open spec fn fallback_anchor<S>(unit: AnchorUnit, one: S) -> TrayAnchor<S> {
    TrayAnchor {
        cursor: (0, 0),
        work_area: WorkRect { x: 0, y: 0, w: 1920, h: 1040 },
        scale: one,
        unit,
    }
}

fn fallback<S>(unit: AnchorUnit, one: S) -> (anchor: TrayAnchor<S>)
    ensures
        anchor == fallback_anchor(unit, one),
{
    TrayAnchor { cursor: (0, 0), work_area: default_work(), scale: one, unit }
}

/// The cursor position, the work area of the monitor under it, and that
/// monitor's scale. Never fails: what a query could not say is replaced by a
/// plausible default.
#[must_use]
pub fn cursor_anchor<S: Copy>(query: AnchorQuery<S>, one: S) -> (anchor: TrayAnchor<S>)
    ensures
        match query {
            AnchorQuery::Windows { cursor, work, scale } => {
                &&& anchor.unit == AnchorUnit::PhysicalPixels
                &&& anchor.scale == scale
                &&& anchor.cursor == match cursor {
                    Some(c) => c,
                    None => (0i32, 0i32),
                }
                &&& match work {
                    Some(edges) => {
                        &&& anchor.work_area.x == edges.left
                        &&& anchor.work_area.y == edges.top
                        &&& anchor.work_area.w == span(edges.left as int, edges.right as int)
                        &&& anchor.work_area.h == span(edges.top as int, edges.bottom as int)
                    },
                    None => anchor.work_area == (WorkRect { x: 0, y: 0, w: 1920, h: 1040 }),
                }
            },
            AnchorQuery::MacOs(measured) => anchor == match measured {
                Some(a) => a,
                None => fallback_anchor(AnchorUnit::Points, one),
            },
            AnchorQuery::Linux { is_x11, measured } => anchor == if is_x11 && measured is Some {
                measured->Some_0
            } else {
                fallback_anchor(AnchorUnit::PhysicalPixels, one)
            },
            AnchorQuery::NoBackend => anchor == fallback_anchor(AnchorUnit::PhysicalPixels, one),
        },
{
    match query {
        AnchorQuery::Windows { cursor, work, scale } => {
            let at: (i32, i32) = match cursor {
                Some(c) => c,
                None => (0, 0),
            };
            TrayAnchor {
                cursor: at,
                work_area: work_area_or_default(work),
                scale,
                unit: AnchorUnit::PhysicalPixels,
            }
        },
        AnchorQuery::MacOs(measured) => match measured {
            Some(anchor) => anchor,
            None => fallback(AnchorUnit::Points, one),
        },
        AnchorQuery::Linux { is_x11, measured } => match measured {
            Some(anchor) => if is_x11 {
                anchor
            } else {
                fallback(AnchorUnit::PhysicalPixels, one)
            },
            None => fallback(AnchorUnit::PhysicalPixels, one),
        },
        AnchorQuery::NoBackend => fallback(AnchorUnit::PhysicalPixels, one),
    }
}

/// The fallback is the top left corner of a 1080p desktop with a bottom taskbar, at
/// scale one, in the platform's own unit.
pub proof fn law_fallback_is_a_plain_desktop<S>(unit: AnchorUnit, one: S)
    ensures
        ({
            let anchor = fallback_anchor(unit, one);
            &&& anchor.cursor == (0i32, 0i32)
            &&& anchor.work_area.x == 0 && anchor.work_area.y == 0
            &&& anchor.work_area.w == 1920 && anchor.work_area.h == 1040
            &&& anchor.scale == one
            &&& anchor.unit == unit
        }),
{
}

/// On a fallback anchor both factors are one, whatever its unit: it places a
/// window the same way on every platform.
pub proof fn law_fallback_needs_no_conversion<S: Copy>(unit: AnchorUnit, usable: bool, one: S)
    ensures
        fallback_anchor(unit, one).factor(unit.to_anchor(), usable, one) == one,
        fallback_anchor(unit, one).factor(unit.to_physical(), usable, one) == one,
{
}

// -- The screen under the cursor on macOS --------------------------------------

/// The first screen whose frame holds the cursor, from one flag per screen; the
/// primary one where none does, and `None` only for no screens at all.
pub fn screen_index_for_cursor(holds_cursor: &[bool]) -> (index: Option<usize>)
    ensures
        match index {
            None => holds_cursor@.len() == 0,
            Some(i) => {
                &&& i < holds_cursor@.len()
                &&& holds_cursor@[i as int] ==> forall|j: int| 0 <= j < i ==> !holds_cursor@[j]
                &&& !holds_cursor@[i as int] ==> i == 0 && !holds_cursor@.contains(true)
            },
        },
{
    if holds_cursor.len() == 0 {
        return None;
    }
    let mut i: usize = 0;
    while i < holds_cursor.len()
        invariant
            i <= holds_cursor.len(),
            forall|j: int| 0 <= j < i ==> !holds_cursor@[j],
        decreases holds_cursor.len() - i,
    {
        if holds_cursor[i] {
            return Some(i);
        }
        i += 1;
    }
    Some(0)
}

} // verus!
