//! The rules of the X11 reads: which replies count, and what they are turned
//! into.
//!
//! The backend sends the requests; these functions decide what to ask for next
//! and copy the replies into the plain structs of the geometry.

use vstd::prelude::*;

use crate::geometry::WorkRect;
use crate::linux_geometry;
use crate::linux_geometry::{X11Monitor, X11Screen, X11Strut};
use crate::text;

verus! {

/// X's "no such thing": the null atom, window or selection owner.
pub const X_NONE: u32 = 0;

/// An atom the server knows, or `None` for the null atom.
pub fn existing_atom(atom: u32) -> (found: Option<u32>)
    ensures
        found == (if atom == X_NONE {
            None
        } else {
            Some(atom)
        }),
        found is None <==> atom == 0,
{
    if atom == X_NONE {
        None
    } else {
        Some(atom)
    }
}

/// Whether a server of this `RandR` version has `GetScreenResourcesCurrent`,
/// which came with 1.3 and does not poll the hardware.
pub fn has_current_resources(major: u32, minor: u32) -> (yes: bool)
    ensures
        yes <==> major > 1 || (major == 1 && minor >= 3),
{
    major > 1 || (major == 1 && minor >= 3)
}

/// The pointer position a `QueryPointer` reply gives: none when the pointer is
/// on another screen, whose coordinates mean nothing here.
pub fn pointer_position(same_screen: bool, root_x: i16, root_y: i16) -> (position: Option<
    (i32, i32),
>)
    ensures
        !same_screen ==> position is None,
        same_screen ==> position == Some((root_x as i32, root_y as i32)),
{
    if same_screen {
        Some((root_x as i32, root_y as i32))
    } else {
        None
    }
}

/// What a `GetCrtcInfo` reply says of one CRTC.
#[derive(Debug, Clone, Copy, PartialEq, Eq, Structural)]
pub struct CrtcInfo {
    /// Left edge.
    pub x: i16,
    /// Top edge.
    pub y: i16,
    /// Width, zero for a CRTC that is off.
    pub width: u16,
    /// Height, likewise.
    pub height: u16,
    /// The first output the CRTC drives.
    pub first_output: Option<u32>,
}

impl CrtcInfo {
    /// Whether the CRTC drives something.
    pub open spec fn lit(self) -> bool {
        self.width > 0 && self.height > 0 && self.first_output is Some
    }
}

/// The CRTCs that drive something, in the order given.
pub fn lit_crtcs(infos: &[CrtcInfo]) -> (lit: Vec<CrtcInfo>)
    ensures
        lit@ == infos@.filter(|info: CrtcInfo| info.lit()),
{
    let mut lit: Vec<CrtcInfo> = Vec::new();
    let ghost keep = |info: CrtcInfo| info.lit();
    let mut i: usize = 0;
    proof {
        reveal(Seq::filter);
        assert(infos@.take(0) == Seq::<CrtcInfo>::empty());
    }
    while i < infos.len()
        invariant
            i <= infos.len(),
            keep == (|info: CrtcInfo| info.lit()),
            lit@ == infos@.take(i as int).filter(keep),
        decreases infos.len() - i,
    {
        let info: CrtcInfo = infos[i];
        proof {
            reveal(Seq::filter);
            let longer = infos@.take(i + 1);
            assert(longer.drop_last() == infos@.take(i as int));
            assert(longer.last() == info);
        }
        if info.width > 0 && info.height > 0 && info.first_output.is_some() {
            lit.push(info);
        }
        i += 1;
    }
    assert(infos@.take(infos@.len() as int) == infos@);
    lit
}

/// The monitor a CRTC and the size of its first output make; an output that
/// would not say its size counts as zero millimetres.
pub open spec fn monitor_of(info: CrtcInfo, size: Option<(u32, u32)>) -> X11Monitor {
    X11Monitor {
        bounds: WorkRect {
            x: info.x as i32,
            y: info.y as i32,
            w: info.width as u32,
            h: info.height as u32,
        },
        mm_width: match size {
            Some(mm) => mm.0,
            None => 0,
        },
        mm_height: match size {
            Some(mm) => mm.1,
            None => 0,
        },
    }
}

/// One monitor for each CRTC, given with the physical size of its output.
pub fn monitors_from(crtcs: &[(CrtcInfo, Option<(u32, u32)>)]) -> (monitors: Vec<X11Monitor>)
    ensures
        monitors@ == Seq::new(crtcs@.len(), |i: int| monitor_of(crtcs@[i].0, crtcs@[i].1)),
{
    let mut monitors: Vec<X11Monitor> = Vec::new();
    let mut i: usize = 0;
    while i < crtcs.len()
        invariant
            i <= crtcs.len(),
            monitors@ == Seq::new(i as nat, |k: int| monitor_of(crtcs@[k].0, crtcs@[k].1)),
        decreases crtcs.len() - i,
    {
        let info: CrtcInfo = crtcs[i].0;
        let mm: (u32, u32) = match crtcs[i].1 {
            Some(mm) => mm,
            None => (0, 0),
        };
        monitors.push(
            X11Monitor {
                bounds: WorkRect {
                    x: info.x as i32,
                    y: info.y as i32,
                    w: info.width as u32,
                    h: info.height as u32,
                },
                mm_width: mm.0,
                mm_height: mm.1,
            },
        );
        i += 1;
        assert(monitors@ =~= Seq::new(i as nat, |k: int| monitor_of(crtcs@[k].0, crtcs@[k].1)));
    }
    monitors
}

/// A CRTC counts exactly when it has an extent both ways and drives an output.
pub proof fn law_lit_crtcs_show_a_picture(info: CrtcInfo)
    ensures
        info.lit() <==> info.width > 0 && info.height > 0 && info.first_output is Some,
{
}

/// A monitor has its CRTC's place and extents, and its output's size where that was
/// told, else none.
pub proof fn law_monitor_is_its_crtc_and_output(info: CrtcInfo, mm: (u32, u32))
    ensures
        ({
            let told = monitor_of(info, Some(mm));
            let untold = monitor_of(info, None);
            &&& told.bounds == untold.bounds
            &&& told.bounds.x == info.x && told.bounds.y == info.y
            &&& told.bounds.w == info.width && told.bounds.h == info.height
            &&& told.mm_width == mm.0 && told.mm_height == mm.1
            &&& untold.mm_width == 0 && untold.mm_height == 0
        }),
{
}

/// Every monitor that comes of the lit CRTCs has pixels.
pub proof fn law_lit_crtcs_have_pixels(infos: Seq<CrtcInfo>, size: Option<(u32, u32)>, i: int)
    requires
        0 <= i < infos.filter(|info: CrtcInfo| info.lit()).len(),
    ensures
        ({
            let m = monitor_of(infos.filter(|info: CrtcInfo| info.lit())[i], size);
            m.bounds.w > 0 && m.bounds.h > 0
        }),
{
    broadcast use vstd::seq_lib::group_filter_ensures;

    let keep = |info: CrtcInfo| info.lit();
    assert(keep(infos.filter(keep)[i]));
}

/// The strut properties to ask every managed window for.
#[derive(Debug, Clone, Copy, PartialEq, Eq, Structural)]
pub struct StrutQuery {
    /// The atom of the window list.
    pub client_list: u32,
    /// The atom of the partial property, where any window ever published one.
    pub partial: Option<u32>,
    /// The atom of the legacy property, likewise.
    pub legacy: Option<u32>,
}

/// What to ask the windows for, or `None` when there is nothing to ask: no
/// window list, or neither property known to the server.
///
/// The two strut atoms are looked up independently: a session whose panels use
/// only one form may never have interned the other.
pub fn strut_query(client_list: Option<u32>, partial: Option<u32>, legacy: Option<u32>) -> (query:
    Option<StrutQuery>)
    ensures
        query == (if client_list is None || (partial is None && legacy is None) {
            None
        } else {
            Some(StrutQuery { client_list: client_list->0, partial, legacy })
        }),
{
    match client_list {
        None => None,
        Some(client_list) => if partial.is_none() && legacy.is_none() {
            None
        } else {
            Some(StrutQuery { client_list, partial, legacy })
        },
    }
}

/// The two strut properties one window answered with.
#[derive(Debug)]
pub struct StrutReads {
    /// The partial property's values.
    pub partial: Option<Vec<u32>>,
    /// The legacy property's values.
    pub legacy: Option<Vec<u32>>,
}

/// The values of a vector that may be absent.
pub open spec fn opt_values(values: Option<Vec<u32>>) -> Option<Seq<u32>> {
    match values {
        Some(v) => Some(v@),
        None => None,
    }
}

/// The strut one window reserves.
pub open spec fn strut_of(reads: StrutReads, screen: X11Screen) -> Option<X11Strut> {
    linux_geometry::chosen_strut(opt_values(reads.partial), opt_values(reads.legacy), screen)
}

/// The struts of the windows that reserve one, in window order.
pub open spec fn struts_of(reads: Seq<StrutReads>, screen: X11Screen) -> Seq<X11Strut>
    decreases reads.len(),
{
    if reads.len() == 0 {
        Seq::empty()
    } else {
        let rest = struts_of(reads.drop_last(), screen);
        match strut_of(reads.last(), screen) {
            Some(strut) => rest.push(strut),
            None => rest,
        }
    }
}

fn as_words(values: &Option<Vec<u32>>) -> (words: Option<&[u32]>)
    ensures
        linux_geometry::opt_words(words) == opt_values(*values),
{
    match values {
        Some(v) => Some(v.as_slice()),
        None => None,
    }
}

/// Every managed window's reserved space.
pub fn struts(reads: &[StrutReads], screen: X11Screen) -> (struts: Vec<X11Strut>)
    ensures
        struts@ == struts_of(reads@, screen),
{
    let mut struts: Vec<X11Strut> = Vec::new();
    let mut i: usize = 0;
    assert(reads@.take(0) == Seq::<StrutReads>::empty());
    while i < reads.len()
        invariant
            i <= reads.len(),
            struts@ == struts_of(reads@.take(i as int), screen),
        decreases reads.len() - i,
    {
        proof {
            let longer = reads@.take(i + 1);
            assert(longer.drop_last() == reads@.take(i as int));
            assert(longer.last() == reads@[i as int]);
        }
        match linux_geometry::choose_strut(
            as_words(&reads[i].partial),
            as_words(&reads[i].legacy),
            screen,
        ) {
            Some(strut) => struts.push(strut),
            None => {},
        }
        i += 1;
    }
    assert(reads@.take(reads@.len() as int) == reads@);
    struts
}

/// Each window adds its own strut, or none, behind those of the windows before it:
/// two lists of windows in a row give their struts in a row.
pub proof fn law_each_window_adds_its_own_strut(
    a: Seq<StrutReads>,
    reads: StrutReads,
    b: Seq<StrutReads>,
    screen: X11Screen,
)
    ensures
        struts_of(a + b, screen) == struts_of(a, screen) + struts_of(b, screen),
        struts_of(seq![reads], screen) == match linux_geometry::chosen_strut(
            match reads.partial {
                Some(p) => Some(p@),
                None => None,
            },
            match reads.legacy {
                Some(l) => Some(l@),
                None => None,
            },
            screen,
        ) {
            Some(strut) => seq![strut],
            None => Seq::empty(),
        },
    decreases b.len(),
{
    let one = seq![reads];
    assert(one.drop_last() =~= Seq::<StrutReads>::empty());
    assert(struts_of(Seq::empty(), screen) =~= Seq::<X11Strut>::empty());
    if b.len() == 0 {
        assert(a + b =~= a);
        assert(struts_of(a, screen) + struts_of(b, screen) =~= struts_of(a, screen));
    } else {
        law_each_window_adds_its_own_strut(a, reads, b.drop_last(), screen);
        assert((a + b).drop_last() =~= a + b.drop_last());
        assert((a + b).last() == b.last());
        assert(struts_of(a + b, screen) =~= struts_of(a, screen) + struts_of(b, screen));
    }
}

/// The name of the selection the XSETTINGS manager of an X screen owns.
pub fn xsettings_selection(screen_index: u64) -> (name: String)
    ensures
        name@ == "_XSETTINGS_S"@ + text::decimal_digits(screen_index as nat),
{
    let mut name: String = "_XSETTINGS_S".to_owned();
    name.append(text::decimal(screen_index).as_str());
    name
}

} // verus!
