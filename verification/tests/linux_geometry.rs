use duja_platform::geometry::{rect_from, sane_scale, AnchorUnit, Edges, WorkRect, MAX_EXTENT};
use duja_platform::linux_geometry;
use duja_platform::linux_geometry::{
    anchor_from_x11, band_meets, choose_strut, clamp_extent, clamp_to_i32, contains,
    distance_squared, extent_from, monitor_for_cursor, rect_from_edges,
    scale_source, window_system, work_area, DisplayEnv, ScaleSource, WindowSystem, X11Monitor, X11Screen,
    X11Strut, CLIENT_LIST_WORDS, STRUT_WORDS, XSETTINGS_WORDS,
};

/// The three places that a scale is read from before it is measured.
#[derive(Clone, Copy)]
struct DpiSources<'a> {
    scale_override: Option<&'a str>,
    xsettings_dpi: Option<f64>,
    xft_dpi: Option<&'a str>,
}

const NO_DPI: DpiSources<'static> = DpiSources {
    scale_override: None,
    xsettings_dpi: None,
    xft_dpi: None,
};

/// A display's own factor, in twelfths.
fn measured(monitor: &X11Monitor) -> f64 {
    let pixels = f64::from(monitor.bounds.w) * f64::from(monitor.bounds.h);
    let millimetres = f64::from(monitor.mm_width) * f64::from(monitor.mm_height);
    if millimetres == 0.0 {
        return 1.0;
    }
    let twelfths = (pixels / millimetres).sqrt() * (12.0 * 25.4 / 96.0);
    (twelfths.round() / 12.0).max(1.0)
}

fn scale_factor(sources: &DpiSources<'_>, monitor: &X11Monitor) -> f32 {
    let factor = sources
        .scale_override
        .and_then(|raw| raw.parse::<f64>().ok())
        .filter(|factor| factor.is_sign_positive() && factor.is_normal());
    let resource = sources.xft_dpi.and_then(|raw| raw.parse::<f64>().ok());
    let scale = linux_geometry::scale_factor(
        sources.scale_override,
        factor,
        sources.xsettings_dpi.map(|dpi| dpi / 96.0),
        resource.map(|dpi| dpi / 96.0),
        measured(monitor),
    ) as f32;
    sane_scale(scale, scale.is_finite() && scale >= 0.1, 1.0)
}

fn approx(got: f32, want: f32) {
    assert!((got - want).abs() < 1e-6, "expected ~{want}, got {got}");
}

fn monitor(x: i32, y: i32, w: u32, h: u32) -> X11Monitor {
    X11Monitor {
        bounds: WorkRect { x, y, w, h },
        mm_width: 0,
        mm_height: 0,
    }
}

#[test]
fn the_cursor_picks_the_monitor_it_is_inside() {
    let monitors = [monitor(0, 0, 1920, 1080), monitor(1920, 0, 2560, 1440)];
    assert_eq!(monitor_for_cursor((10, 10), &monitors), Some(0));
    assert_eq!(monitor_for_cursor((2000, 900), &monitors), Some(1));
}

#[test]
fn the_shared_column_between_two_monitors_belongs_to_the_right_hand_one() {
    let monitors = [monitor(0, 0, 1920, 1080), monitor(1920, 0, 1920, 1080)];
    assert_eq!(monitor_for_cursor((1919, 0), &monitors), Some(0));
    assert_eq!(monitor_for_cursor((1920, 0), &monitors), Some(1));
    let stacked = [monitor(0, 0, 1920, 1080), monitor(0, 1080, 1920, 1080)];
    assert_eq!(monitor_for_cursor((0, 1079), &stacked), Some(0));
    assert_eq!(monitor_for_cursor((0, 1080), &stacked), Some(1));
}

#[test]
fn a_monitor_left_of_the_primary_keeps_its_negative_origin() {
    let monitors = [monitor(-1920, -180, 1920, 1200), monitor(0, 0, 1920, 1080)];
    assert_eq!(monitor_for_cursor((-1000, -100), &monitors), Some(0));
    assert_eq!(monitor_for_cursor((-1, 0), &monitors), Some(0));
    assert_eq!(monitor_for_cursor((0, 0), &monitors), Some(1));
}

#[test]
fn a_cursor_on_no_monitor_falls_to_the_nearest_rather_than_the_first() {
    let monitors = [monitor(0, 0, 1920, 1080), monitor(1920, 1080, 1920, 1080)];
    assert_eq!(
        monitor_for_cursor((4000, 2500), &monitors),
        Some(1),
        "past the second monitor's bottom-right corner, and nearer to it"
    );
    assert_eq!(
        monitor_for_cursor((-500, -500), &monitors),
        Some(0),
        "off the top-left of the first"
    );
    assert_eq!(monitor_for_cursor((1910, 1500), &monitors), Some(1));
}

#[test]
fn an_equidistant_cursor_picks_the_earlier_monitor_every_time() {
    let monitors = [monitor(0, 0, 100, 100), monitor(201, 0, 100, 100)];
    let picked = monitor_for_cursor((150, 50), &monitors);
    assert_eq!(picked, Some(0));
    assert_eq!(monitor_for_cursor((149, 50), &monitors), Some(0));
    assert_eq!(monitor_for_cursor((151, 50), &monitors), Some(1));
}

#[test]
fn a_mirrored_pair_resolves_to_the_first_crtc() {
    let mirrored = [monitor(0, 0, 1920, 1080), monitor(0, 0, 1920, 1080)];
    assert_eq!(monitor_for_cursor((960, 540), &mirrored), Some(0));
}

#[test]
fn containment_and_a_zero_distance_agree_on_every_real_rectangle() {
    let rects = [
        WorkRect {
            x: 0,
            y: 0,
            w: 1920,
            h: 1080,
        },
        WorkRect {
            x: -1920,
            y: -180,
            w: 1920,
            h: 1200,
        },
        WorkRect {
            x: 7,
            y: 3,
            w: 1,
            h: 1,
        },
    ];
    let probes = [
        (0, 0),
        (-1, 0),
        (0, -1),
        (1919, 1079),
        (1920, 1079),
        (1919, 1080),
        (-1920, -180),
        (-1921, -180),
        (7, 3),
        (8, 3),
        (7, 4),
        (i32::MIN, i32::MAX),
    ];
    for rect in rects {
        for probe in probes {
            assert_eq!(
                contains(rect, probe),
                distance_squared(rect, probe) == 0,
                "{rect:?} and {probe:?} disagree about inside"
            );
        }
    }
}

#[test]
fn an_empty_rectangle_is_the_one_place_the_two_predicates_disagree() {
    let empty = WorkRect {
        x: 7,
        y: 3,
        w: 0,
        h: 0,
    };
    assert!(!contains(empty, (7, 3)));
    assert_eq!(distance_squared(empty, (7, 3)), 0);
}

#[test]
fn a_degenerate_crtc_cannot_capture_a_cursor_that_is_inside_another() {
    let monitors = [monitor(10, 10, 0, 0), monitor(0, 0, 1920, 1080)];
    assert_eq!(monitor_for_cursor((10, 10), &monitors), Some(1));
}

#[test]
fn an_extent_saturates_at_both_ends_rather_than_wrapping() {
    assert_eq!(clamp_extent(-1), 0);
    assert_eq!(clamp_extent(i64::MIN), 0);
    assert_eq!(clamp_extent(0), 0);
    assert_eq!(clamp_extent(1), 1);
    assert_eq!(clamp_extent(i64::from(MAX_EXTENT)), MAX_EXTENT);
    assert_eq!(
        clamp_extent(i64::from(MAX_EXTENT) + 1),
        MAX_EXTENT,
        "one past the cap is the cap, not a wrap to zero"
    );
    assert_eq!(clamp_extent(i64::MAX), MAX_EXTENT);
}

#[test]
fn no_monitors_is_none_rather_than_a_guess() {
    assert_eq!(monitor_for_cursor((0, 0), &[]), None);
    let none: [(X11Monitor, f32); 0] = [];
    assert!(anchor_from_x11((0, 0), &none, screen(1920, 1080), &[]).is_none());
}

const fn screen(width: u32, height: u32) -> X11Screen {
    X11Screen { width, height }
}

fn bottom_panel(depth: u32, from: u32, to: u32) -> X11Strut {
    X11Strut {
        bottom: depth,
        bottom_start_x: from,
        bottom_end_x: to,
        ..X11Strut::default()
    }
}

#[test]
fn a_bottom_panel_lifts_only_the_bottom_edge() {
    let bounds = WorkRect {
        x: 0,
        y: 0,
        w: 1920,
        h: 1080,
    };
    let work = work_area(bounds, screen(1920, 1080), &[bottom_panel(40, 0, 1919)]);
    assert_eq!(
        work,
        WorkRect {
            x: 0,
            y: 0,
            w: 1920,
            h: 1040
        }
    );
}

#[test]
fn a_panel_on_one_monitor_leaves_the_other_alone() {
    let tall = WorkRect {
        x: 0,
        y: 0,
        w: 1920,
        h: 1200,
    };
    let short = WorkRect {
        x: 1920,
        y: 0,
        w: 1920,
        h: 1080,
    };
    let root = screen(3840, 1200);
    let panel = bottom_panel(160, 1920, 3839);

    assert_eq!(
        work_area(short, root, &[panel]),
        WorkRect {
            x: 1920,
            y: 0,
            w: 1920,
            h: 1040
        },
        "the monitor the panel is on loses exactly the panel's 40 pixels"
    );
    assert_eq!(
        work_area(tall, root, &[panel]),
        tall,
        "the monitor the panel's columns never reach is untouched"
    );
}

#[test]
fn a_left_panel_does_not_reach_the_monitor_to_its_right() {
    let left = WorkRect {
        x: 0,
        y: 0,
        w: 1920,
        h: 1080,
    };
    let right = WorkRect {
        x: 1920,
        y: 0,
        w: 1920,
        h: 1080,
    };
    let panel = X11Strut {
        left: 60,
        left_start_y: 0,
        left_end_y: 1079,
        ..X11Strut::default()
    };
    assert_eq!(
        work_area(left, screen(3840, 1080), &[panel]),
        WorkRect {
            x: 60,
            y: 0,
            w: 1860,
            h: 1080
        }
    );
    assert_eq!(
        work_area(right, screen(3840, 1080), &[panel]),
        right,
        "clamping the right monitor's left edge up to 60 would be a no-op \
         only by accident; it must stay at 1920"
    );
}

#[test]
fn each_band_is_matched_against_the_axis_it_spans_not_the_other_one() {
    let upper = WorkRect {
        x: 0,
        y: 0,
        w: 1920,
        h: 1080,
    };
    let lower_dock = X11Strut {
        left: 60,
        left_start_y: 1080,
        left_end_y: 2159,
        ..X11Strut::default()
    };
    assert_eq!(
        work_area(upper, screen(1920, 2160), &[lower_dock]),
        upper,
        "a left band is a range of rows"
    );

    let right = WorkRect {
        x: 1920,
        y: 0,
        w: 1920,
        h: 1080,
    };
    let left_panel = X11Strut {
        top: 30,
        top_start_x: 0,
        top_end_x: 1919,
        ..X11Strut::default()
    };
    assert_eq!(
        work_area(right, screen(3840, 1080), &[left_panel]),
        right,
        "a top band is a range of columns"
    );

    let early_panel = bottom_panel(40, 0, 1919);
    assert_eq!(
        work_area(right, screen(3840, 1080), &[early_panel]),
        right,
        "a band that ends before the monitor begins does not reach it"
    );
}

#[test]
fn the_result_does_not_depend_on_the_order_the_windows_were_listed_in() {
    let bounds = WorkRect {
        x: 0,
        y: 0,
        w: 1920,
        h: 1080,
    };
    let top = X11Strut {
        top: 30,
        top_start_x: 0,
        top_end_x: 1919,
        ..X11Strut::default()
    };
    let left = X11Strut {
        left: 60,
        left_start_y: 0,
        left_end_y: 20,
        ..X11Strut::default()
    };
    let expected = WorkRect {
        x: 60,
        y: 30,
        w: 1860,
        h: 1050,
    };
    assert_eq!(
        work_area(bounds, screen(1920, 1080), &[top, left]),
        expected
    );
    assert_eq!(
        work_area(bounds, screen(1920, 1080), &[left, top]),
        expected
    );

    let narrow_top = X11Strut {
        top: 30,
        top_start_x: 0,
        top_end_x: 40,
        ..X11Strut::default()
    };
    let both = WorkRect {
        x: 60,
        y: 30,
        w: 1860,
        h: 1050,
    };
    assert_eq!(
        work_area(bounds, screen(1920, 1080), &[left, narrow_top]),
        both
    );
    assert_eq!(
        work_area(bounds, screen(1920, 1080), &[narrow_top, left]),
        both
    );
}

#[test]
fn two_panels_on_one_edge_reserve_the_deeper_one_not_their_sum() {
    let bounds = WorkRect {
        x: 0,
        y: 0,
        w: 1920,
        h: 1080,
    };
    let work = work_area(
        bounds,
        screen(1920, 1080),
        &[bottom_panel(60, 0, 1919), bottom_panel(40, 0, 1919)],
    );
    assert_eq!(work.h, 1020, "1080 - 60, not 1080 - 40 and not 1080 - 100");
    let other_order = work_area(
        bounds,
        screen(1920, 1080),
        &[bottom_panel(40, 0, 1919), bottom_panel(60, 0, 1919)],
    );
    assert_eq!(other_order, work, "and the order does not matter");

    let upper = WorkRect {
        x: 0,
        y: 0,
        w: 1920,
        h: 1080,
    };
    assert_eq!(
        work_area(upper, screen(1920, 2160), &[bottom_panel(160, 0, 1919)]),
        upper,
        "a monitor cannot grow past its own bottom edge"
    );
}

#[test]
fn a_band_is_matched_against_the_monitors_own_edges_to_the_pixel() {
    let stacked = screen(1920, 2160);
    let lower = WorkRect {
        x: 0,
        y: 1080,
        w: 1920,
        h: 1080,
    };
    let dock = |start: u32, end: u32| X11Strut {
        left: 60,
        left_start_y: start,
        left_end_y: end,
        ..X11Strut::default()
    };

    assert_eq!(work_area(lower, stacked, &[dock(0, 1080)]).x, 60);
    assert_eq!(work_area(lower, stacked, &[dock(0, 1079)]).x, 0);
    assert_eq!(work_area(lower, stacked, &[dock(2159, 3000)]).x, 60);
    assert_eq!(work_area(lower, stacked, &[dock(2160, 3000)]).x, 0);

    let side_by_side = screen(3840, 1080);
    let left_monitor = WorkRect {
        x: 0,
        y: 0,
        w: 1920,
        h: 1080,
    };
    assert_eq!(
        work_area(left_monitor, side_by_side, &[bottom_panel(40, 1919, 3839)]).h,
        1040,
        "one shared column is enough to reserve the whole edge"
    );
    assert_eq!(
        work_area(left_monitor, side_by_side, &[bottom_panel(40, 1920, 3839)]).h,
        1080,
        "and one column past it is not"
    );

    let right_monitor = WorkRect {
        x: 1920,
        y: 0,
        w: 1920,
        h: 1080,
    };
    assert_eq!(
        work_area(right_monitor, side_by_side, &[bottom_panel(40, 0, 1920)]).h,
        1040,
        "ending on the monitor's first column is inclusive"
    );
    assert_eq!(
        work_area(right_monitor, side_by_side, &[bottom_panel(40, 0, 1919)]).h,
        1080,
        "and ending one column short of it is not"
    );
}

#[test]
fn a_wrapping_distance_would_pick_the_furthest_monitor() {
    let far = [monitor(i32::MAX, 0, 1, 1), monitor(0, 0, 1920, 1080)];
    assert_eq!(
        monitor_for_cursor((i32::MIN, 0), &far),
        Some(1),
        "the cursor is at the opposite end of the space from monitor 0"
    );

    let far_down = [monitor(0, i32::MAX, 1, 1), monitor(0, 0, 1920, 1080)];
    assert_eq!(
        monitor_for_cursor((0, i32::MIN), &far_down),
        Some(1),
        "and the vertical axis is a separate multiplication"
    );

    for rect in [
        WorkRect {
            x: i32::MAX,
            y: 0,
            w: 1,
            h: 1,
        },
        WorkRect {
            x: 0,
            y: i32::MAX,
            w: 1,
            h: 1,
        },
    ] {
        let probe = if rect.x == 0 {
            (0, i32::MIN)
        } else {
            (i32::MIN, 0)
        };
        assert_eq!(
            distance_squared(rect, probe),
            i64::MAX,
            "the square of the widest possible gap saturates on either axis"
        );
    }

    assert_eq!(
        distance_squared(
            WorkRect {
                x: 7,
                y: 3,
                w: 1,
                h: 1
            },
            (i32::MIN, i32::MAX)
        ),
        i64::MAX,
        "two components that each fit still saturate when summed"
    );
}

#[test]
fn a_zero_extent_monitor_does_not_panic_the_nearest_search() {
    let degenerate = [monitor(10, 10, 0, 0), monitor(100, 100, 1920, 1080)];
    assert_eq!(monitor_for_cursor((0, 0), &degenerate), Some(0));
    assert_eq!(monitor_for_cursor((500, 500), &degenerate), Some(1));
    assert_eq!(
        monitor_for_cursor((10, 10), &[monitor(10, 10, 0, 0)]),
        Some(0)
    );
}

#[test]
fn the_deepest_reservation_wins_on_every_edge_not_just_the_bottom() {
    let bounds = WorkRect {
        x: 0,
        y: 0,
        w: 1920,
        h: 1080,
    };
    let side = |depth: u32, right: bool| {
        if right {
            X11Strut {
                right: depth,
                right_start_y: 0,
                right_end_y: 1079,
                ..X11Strut::default()
            }
        } else {
            X11Strut {
                left: depth,
                left_start_y: 0,
                left_end_y: 1079,
                ..X11Strut::default()
            }
        }
    };
    let top_of = |depth: u32| X11Strut {
        top: depth,
        top_start_x: 0,
        top_end_x: 1919,
        ..X11Strut::default()
    };
    let root = screen(1920, 1080);

    assert_eq!(
        work_area(bounds, root, &[side(60, false), side(40, false)]).x,
        60,
        "left"
    );
    assert_eq!(
        work_area(bounds, root, &[side(80, true), side(40, true)]).w,
        1840,
        "right"
    );
    assert_eq!(
        work_area(bounds, root, &[top_of(60), top_of(30)]).y,
        60,
        "top"
    );
    assert_eq!(
        work_area(
            bounds,
            root,
            &[bottom_panel(60, 0, 1919), bottom_panel(40, 0, 1919)]
        )
        .h,
        1020,
        "bottom"
    );
}

#[test]
fn a_zero_width_strut_reserves_nothing_however_its_ranges_are_set() {
    let bounds = WorkRect {
        x: 0,
        y: 0,
        w: 1920,
        h: 1080,
    };
    let idle = X11Strut {
        left_end_y: 1079,
        top_end_x: 1919,
        right_end_y: 1079,
        bottom_end_x: 1919,
        ..X11Strut::default()
    };
    assert_eq!(work_area(bounds, screen(1920, 1080), &[idle]), bounds);

    let off_origin = WorkRect {
        x: -100,
        y: -100,
        w: 1920,
        h: 1080,
    };
    let idle_over_it = X11Strut {
        left_start_y: 0,
        left_end_y: 4000,
        top_start_x: 0,
        top_end_x: 4000,
        ..X11Strut::default()
    };
    assert_eq!(
        work_area(off_origin, screen(1920, 1080), &[idle_over_it]),
        off_origin,
        "a zero depth must not pull an edge up to the screen's origin"
    );

    let past_the_screen = WorkRect {
        x: 0,
        y: 0,
        w: 1920,
        h: 1080,
    };
    let idle_ranges = X11Strut {
        left_end_y: 4000,
        right_end_y: 4000,
        top_end_x: 4000,
        bottom_end_x: 4000,
        ..X11Strut::default()
    };
    assert_eq!(
        work_area(past_the_screen, screen(1000, 500), &[idle_ranges]),
        past_the_screen,
        "a zero depth must not pull an edge back to a stale screen extent"
    );
}

#[test]
fn an_edge_beyond_the_coordinate_space_saturates_the_origin_not_the_width() {
    let far = WorkRect {
        x: i32::MAX - 100,
        y: 0,
        w: 4000,
        h: 1080,
    };
    let past_the_end = X11Strut {
        left: 2_147_484_647,
        left_start_y: 0,
        left_end_y: 1079,
        ..X11Strut::default()
    };
    let work = work_area(far, screen(u32::MAX, u32::MAX), &[past_the_end]);
    assert_eq!(work.x, i32::MAX, "the origin saturates");
    assert_eq!(work.w, 0, "and takes the width with it");

    let far_down = WorkRect {
        x: 0,
        y: i32::MAX - 100,
        w: 1920,
        h: 4000,
    };
    let below_the_end = X11Strut {
        top: 2_147_484_647,
        top_start_x: 0,
        top_end_x: 1919,
        ..X11Strut::default()
    };
    let vertical = work_area(far_down, screen(u32::MAX, u32::MAX), &[below_the_end]);
    assert_eq!(vertical.y, i32::MAX, "so does the vertical origin");
    assert_eq!(vertical.h, 0);
}

#[test]
fn a_band_whose_end_precedes_its_start_is_ignored() {
    let bounds = WorkRect {
        x: 0,
        y: 0,
        w: 1920,
        h: 1080,
    };
    let backwards = bottom_panel(40, 1919, 0);
    assert_eq!(work_area(bounds, screen(1920, 1080), &[backwards]), bounds);
}

#[test]
fn a_single_row_band_still_counts() {
    let bounds = WorkRect {
        x: 0,
        y: 0,
        w: 1920,
        h: 1080,
    };
    let sliver = bottom_panel(40, 0, 0);
    assert_eq!(work_area(bounds, screen(1920, 1080), &[sliver]).h, 1040);
}

#[test]
fn a_strut_that_swallows_the_monitor_yields_the_monitor_not_an_empty_rect() {
    let bounds = WorkRect {
        x: 0,
        y: 0,
        w: 1920,
        h: 1080,
    };
    let absurd = X11Strut {
        top: 2000,
        top_start_x: 0,
        top_end_x: 1919,
        ..X11Strut::default()
    };
    assert_eq!(work_area(bounds, screen(1920, 1080), &[absurd]), bounds);
}

fn assert_respects(work: WorkRect, bounds: WorkRect, root: X11Screen, strut: &X11Strut) {
    let (monitor_left, monitor_top) = (i64::from(bounds.x), i64::from(bounds.y));
    let monitor_right = monitor_left.saturating_add(i64::from(bounds.w));
    let monitor_bottom = monitor_top.saturating_add(i64::from(bounds.h));
    let left = i64::from(work.x);
    let top = i64::from(work.y);
    let right = left.saturating_add(i64::from(work.w));
    let bottom = top.saturating_add(i64::from(work.h));
    let rows = (monitor_top, monitor_bottom);
    let columns = (monitor_left, monitor_right);
    let kept_x = !(left == monitor_left && right == monitor_right);
    let kept_y = !(top == monitor_top && bottom == monitor_bottom);
    let screen_right = i64::from(root.width);
    let screen_bottom = i64::from(root.height);

    if kept_x && strut.left > 0 && band_meets(strut.left_start_y, strut.left_end_y, rows)
    {
        assert!(
            left >= i64::from(strut.left),
            "{work:?} starts inside a left band"
        );
    }
    if kept_x
        && strut.right > 0
        && band_meets(strut.right_start_y, strut.right_end_y, rows)
    {
        let edge = screen_right.saturating_sub(i64::from(strut.right));
        assert!(right <= edge, "{work:?} ends inside a right band");
    }
    if kept_y && strut.top > 0 && band_meets(strut.top_start_x, strut.top_end_x, columns)
    {
        assert!(
            top >= i64::from(strut.top),
            "{work:?} starts inside a top band"
        );
    }
    if kept_y
        && strut.bottom > 0
        && band_meets(strut.bottom_start_x, strut.bottom_end_x, columns)
    {
        let edge = screen_bottom.saturating_sub(i64::from(strut.bottom));
        assert!(bottom <= edge, "{work:?} ends inside a bottom band");
    }
}

#[test]
fn a_surviving_axis_excludes_every_band_that_reaches_it() {
    let full = WorkRect {
        x: 0,
        y: 0,
        w: 1920,
        h: 1080,
    };
    let side = |depth: u32, right: bool| {
        if right {
            X11Strut {
                right: depth,
                right_start_y: 0,
                right_end_y: 1079,
                ..X11Strut::default()
            }
        } else {
            X11Strut {
                left: depth,
                left_start_y: 0,
                left_end_y: 1079,
                ..X11Strut::default()
            }
        }
    };
    let top = X11Strut {
        top: 30,
        top_start_x: 0,
        top_end_x: 1919,
        ..X11Strut::default()
    };
    let stacked = WorkRect {
        x: 0,
        y: 1080,
        w: 1920,
        h: 1080,
    };
    let tall = screen(1920, 2160);
    let short_of_two = WorkRect {
        x: 1920,
        y: 0,
        w: 1920,
        h: 1080,
    };

    let cases: [(WorkRect, X11Screen, Vec<X11Strut>); 5] = [
        (full, screen(1920, 1080), vec![bottom_panel(40, 0, 1919)]),
        (
            short_of_two,
            screen(3840, 1200),
            vec![bottom_panel(160, 1920, 3839)],
        ),
        (
            stacked,
            tall,
            vec![X11Strut::from_legacy([60, 80, 30, 160], tall)],
        ),
        (
            full,
            screen(1920, 1080),
            vec![side(1000, false), side(1000, true)],
        ),
        (full, screen(1920, 1080), vec![top, side(4000, false)]),
    ];

    for (bounds, root, struts) in cases {
        let work = work_area(bounds, root, &struts);
        for strut in &struts {
            assert_respects(work, bounds, root, strut);
        }
    }
}

#[test]
fn an_extent_is_capped_against_its_own_origin_not_only_at_max_extent() {
    let far = WorkRect {
        x: i32::MAX - 100,
        y: i32::MAX - 100,
        w: 4000,
        h: 4000,
    };
    let work = work_area(far, screen(u32::MAX, u32::MAX), &[]);
    assert_eq!(work.x, i32::MAX - 100);
    assert_eq!(
        i64::from(work.x).saturating_add(i64::from(work.w)),
        i64::from(i32::MAX),
        "the span must stop at the end of the coordinate space, not past it"
    );
    assert_eq!(
        i64::from(work.y).saturating_add(i64::from(work.h)),
        i64::from(i32::MAX)
    );

    let pinned = WorkRect {
        x: i32::MAX,
        y: 0,
        w: 4000,
        h: 1080,
    };
    assert_eq!(work_area(pinned, screen(u32::MAX, u32::MAX), &[]).w, 0);
}

#[test]
fn two_conformant_panels_can_empty_an_axis_between_them() {
    let bounds = WorkRect {
        x: 0,
        y: 0,
        w: 1920,
        h: 1080,
    };
    let left_dock = X11Strut {
        left: 1000,
        left_start_y: 0,
        left_end_y: 1079,
        ..X11Strut::default()
    };
    let right_dock = X11Strut {
        right: 1000,
        right_start_y: 0,
        right_end_y: 1079,
        ..X11Strut::default()
    };
    assert_eq!(
        work_area(bounds, screen(1920, 1080), &[left_dock, right_dock]),
        bounds,
        "the x axis empties and is given back; y was never touched"
    );

    let half = X11Strut {
        left: 960,
        left_start_y: 0,
        left_end_y: 1079,
        ..X11Strut::default()
    };
    let other_half = X11Strut {
        right: 960,
        right_start_y: 0,
        right_end_y: 1079,
        ..X11Strut::default()
    };
    assert_eq!(
        work_area(bounds, screen(1920, 1080), &[half, other_half]),
        bounds,
        "an exactly-emptied axis is emptied"
    );

    let upper_half = X11Strut {
        top: 540,
        top_start_x: 0,
        top_end_x: 1919,
        ..X11Strut::default()
    };
    let lower_half = X11Strut {
        bottom: 540,
        bottom_start_x: 0,
        bottom_end_x: 1919,
        ..X11Strut::default()
    };
    assert_eq!(
        work_area(bounds, screen(1920, 1080), &[upper_half, lower_half]),
        bounds,
        "the y axis has its own boundary and its own `if`"
    );
    assert_eq!(work_area(bounds, screen(1920, 1080), &[left_dock]).x, 1000);
    assert_eq!(work_area(bounds, screen(1920, 1080), &[right_dock]).w, 920);
}

#[test]
fn one_swallowed_axis_does_not_discard_the_other_axis_reservations() {
    let bounds = WorkRect {
        x: 0,
        y: 0,
        w: 1920,
        h: 1080,
    };
    let panel = X11Strut {
        top: 30,
        top_start_x: 0,
        top_end_x: 1919,
        ..X11Strut::default()
    };
    let nonsense = X11Strut {
        left: 4000,
        left_start_y: 0,
        left_end_y: 1079,
        ..X11Strut::default()
    };
    assert_eq!(
        work_area(bounds, screen(1920, 1080), &[panel, nonsense]),
        WorkRect {
            x: 0,
            y: 30,
            w: 1920,
            h: 1050
        },
        "the x axis is given back in full; the y axis keeps its panel"
    );
    let side = X11Strut {
        left: 60,
        left_start_y: 0,
        left_end_y: 1079,
        ..X11Strut::default()
    };
    let tall_nonsense = X11Strut {
        bottom: 4000,
        bottom_start_x: 0,
        bottom_end_x: 1919,
        ..X11Strut::default()
    };
    assert_eq!(
        work_area(bounds, screen(1920, 1080), &[side, tall_nonsense]),
        WorkRect {
            x: 60,
            y: 0,
            w: 1860,
            h: 1080
        }
    );
}

#[test]
fn the_legacy_strut_is_widened_to_the_whole_screen() {
    let root = screen(3840, 1200);
    let widened = X11Strut::from_legacy([0, 0, 0, 160], root);
    let short = WorkRect {
        x: 1920,
        y: 0,
        w: 1920,
        h: 1080,
    };
    assert_eq!(work_area(short, root, &[widened]).h, 1040);
    let tall = WorkRect {
        x: 0,
        y: 0,
        w: 1920,
        h: 1200,
    };
    assert_eq!(work_area(tall, root, &[widened]).h, 1040);
}

#[test]
fn the_legacy_strut_reaches_a_monitor_that_touches_no_screen_corner() {
    let root = screen(1920, 2160);
    let lower = WorkRect {
        x: 0,
        y: 1080,
        w: 1920,
        h: 1080,
    };
    let widened = X11Strut::from_legacy([60, 80, 30, 160], root);
    assert_eq!(
        work_area(lower, root, &[widened]),
        WorkRect {
            x: 60,
            y: 1080,
            w: 1780,
            h: 920
        },
        "left and right bands must span the whole screen height"
    );
    let portrait = screen(1080, 3840);
    let lower_portrait = WorkRect {
        x: 0,
        y: 1920,
        w: 1080,
        h: 1920,
    };
    assert_eq!(
        work_area(
            lower_portrait,
            portrait,
            &[X11Strut::from_legacy([60, 80, 0, 0], portrait)]
        ),
        WorkRect {
            x: 60,
            y: 1920,
            w: 940,
            h: 1920
        },
        "the left and right bands span the screen's height"
    );

    let right_of_origin = WorkRect {
        x: 1920,
        y: 0,
        w: 1920,
        h: 1080,
    };
    let wide_root = screen(3840, 1080);
    let full_width = X11Strut::from_legacy([0, 0, 30, 0], wide_root);
    assert_eq!(
        work_area(right_of_origin, wide_root, &[full_width]).y,
        30,
        "the top band must span the whole screen width"
    );
}

#[test]
fn only_a_depth_makes_a_strut_a_strut() {
    assert!(!X11Strut::default().reserves_anything());
    assert!(
        !X11Strut::from_partial([0, 0, 0, 0, 0, 1079, 0, 1079, 0, 1919, 0, 1919])
            .reserves_anything()
    );
    for edge in 0..4 {
        let mut values = [0_u32; 12];
        *values.get_mut(edge).expect("four depths") = 40;
        assert!(
            X11Strut::from_partial(values).reserves_anything(),
            "edge {edge} alone must count"
        );
    }
}

#[test]
fn the_partial_field_order_matches_the_property() {
    let strut = X11Strut::from_partial([1, 2, 3, 4, 5, 6, 7, 8, 9, 10, 11, 12]);
    assert_eq!(
        strut,
        X11Strut {
            left: 1,
            right: 2,
            top: 3,
            bottom: 4,
            left_start_y: 5,
            left_end_y: 6,
            right_start_y: 7,
            right_end_y: 8,
            top_start_x: 9,
            top_end_x: 10,
            bottom_start_x: 11,
            bottom_end_x: 12,
        }
    );
}

#[test]
fn a_right_edge_panel_is_measured_from_the_screens_right_edge() {
    let left_monitor = WorkRect {
        x: 0,
        y: 0,
        w: 1920,
        h: 1080,
    };
    let right_monitor = WorkRect {
        x: 1920,
        y: 0,
        w: 1920,
        h: 1080,
    };
    let panel = X11Strut {
        right: 80,
        right_start_y: 0,
        right_end_y: 1079,
        ..X11Strut::default()
    };
    assert_eq!(
        work_area(right_monitor, screen(3840, 1080), &[panel]),
        WorkRect {
            x: 1920,
            y: 0,
            w: 1840,
            h: 1080
        }
    );
    assert_eq!(
        work_area(left_monitor, screen(3840, 1080), &[panel]),
        left_monitor,
        "the panel is 1920 pixels away from this monitor's right edge"
    );
}

#[test]
fn the_anchor_describes_the_cursors_monitor_and_declares_physical_pixels() {
    let monitors = [
        X11Monitor {
            bounds: WorkRect {
                x: 0,
                y: 0,
                w: 1920,
                h: 1080,
            },
            mm_width: 531,
            mm_height: 299,
        },
        X11Monitor {
            bounds: WorkRect {
                x: 1920,
                y: 0,
                w: 1920,
                h: 1080,
            },
            mm_width: 344,
            mm_height: 194,
        },
    ];
    let scaled = monitors.map(|m| (m, scale_factor(&NO_DPI, &m)));
    let anchor = anchor_from_x11(
        (2500, 900),
        &scaled,
        screen(3840, 1080),
        &[bottom_panel(40, 1920, 3839)],
    )
    .expect("two enabled monitors");

    assert_eq!(anchor.cursor, (2500, 900));
    assert_eq!(
        anchor.work_area,
        WorkRect {
            x: 1920,
            y: 0,
            w: 1920,
            h: 1040
        },
        "the second monitor's work area, not the first monitor's"
    );
    assert_eq!(anchor.unit, AnchorUnit::PhysicalPixels);
    approx(anchor.scale, 1.5);
    approx(anchor.anchor_to_physical(true, 1.0), 1.0);
    approx(anchor.logical_to_anchor(true, 1.0), 1.5);
}

type PartialCase<'a> = (&'a str, Option<&'a [u32]>, Option<X11Strut>);

type LegacyCase<'a> = (&'a str, Option<&'a [u32]>, Option<[u32; 4]>);

#[test]
fn a_strut_request_asks_for_one_word_more_than_a_strut_can_hold() {
    assert_eq!(
        STRUT_WORDS,
        12 + 1,
        "one more than `_NET_WM_STRUT_PARTIAL`'s twelve CARDINALs"
    );
    assert!(CLIENT_LIST_WORDS >= 1024);
    assert!(XSETTINGS_WORDS >= 4096);
}

#[test]
fn the_partial_strut_wins_unless_it_reserves_nothing() {
    let root = screen(1920, 1080);
    let partial = [40, 0, 0, 0, 0, 1079, 0, 0, 0, 0, 0, 0];
    let empty_partial = [0_u32; 12];
    let legacy = [0, 0, 60, 0];

    assert_eq!(
        choose_strut(Some(&partial), Some(&legacy), root),
        Some(X11Strut::from_partial(partial)),
        "the partial form is preferred"
    );
    assert_eq!(
        choose_strut(Some(&empty_partial), Some(&legacy), root),
        Some(X11Strut::from_legacy(legacy, root)),
        "an all-zero partial is not a reservation"
    );
    assert_eq!(
        choose_strut(None, Some(&legacy), root),
        Some(X11Strut::from_legacy(legacy, root)),
        "a legacy-only panel reserves its edge"
    );
    assert_eq!(
        choose_strut(Some(&partial), None, root),
        Some(X11Strut::from_partial(partial)),
        "a partial-only panel reserves its edge with no legacy to fall back to"
    );
    assert_eq!(
        choose_strut(Some(&empty_partial), None, root),
        None,
        "and one that reserves nothing has nothing to fall back to"
    );
    assert_eq!(
        choose_strut(Some(&partial[..11]), Some(&legacy), root),
        Some(X11Strut::from_legacy(legacy, root))
    );
    assert_eq!(choose_strut(Some(&partial[..11]), None, root), None);
    assert_eq!(choose_strut(None, Some(&legacy[..3]), root), None);

    let thirteen = [40, 0, 0, 0, 0, 1079, 0, 0, 0, 0, 0, 0, 99];
    assert_eq!(
        choose_strut(Some(&thirteen), Some(&legacy), root),
        Some(X11Strut::from_legacy(legacy, root)),
        "thirteen values are not a partial strut"
    );
    assert_eq!(choose_strut(Some(&thirteen), None, root), None);
    let five = [0, 0, 60, 0, 99];
    assert_eq!(choose_strut(None, Some(&five), root), None);
    assert_eq!(choose_strut(None, None, root), None);

    let zero_legacy = [0_u32; 4];
    let partials: [PartialCase<'_>; 5] = [
        ("absent", None, None),
        (
            "conformant",
            Some(&partial),
            Some(X11Strut::from_partial(partial)),
        ),
        ("all zero", Some(&empty_partial), None),
        ("too short", Some(&partial[..11]), None),
        ("too long", Some(&thirteen), None),
    ];
    let legacies: [LegacyCase<'_>; 5] = [
        ("absent", None, None),
        ("valid", Some(&legacy), Some(legacy)),
        ("all zero", Some(&zero_legacy), Some(zero_legacy)),
        ("too short", Some(&legacy[..3]), None),
        ("too long", Some(&five), None),
    ];
    for (partial_name, partial_value, wins_with) in partials {
        for (legacy_name, legacy_value, decoded) in legacies {
            let expected =
                wins_with.or_else(|| decoded.map(|four| X11Strut::from_legacy(four, root)));
            assert_eq!(
                choose_strut(partial_value, legacy_value, root),
                expected,
                "partial {partial_name}, legacy {legacy_name}"
            );
        }
    }
}

fn display_env(
    wayland_display: Option<&'static str>,
    wayland_socket: Option<&'static str>,
    display: Option<&'static str>,
) -> DisplayEnv<'static> {
    DisplayEnv {
        wayland_display,
        wayland_socket,
        display,
    }
}

#[test]
fn wayland_wins_over_a_display_that_xwayland_also_set() {
    assert_eq!(
        window_system(display_env(Some("wayland-1"), None, Some(":0"))),
        WindowSystem::Wayland
    );
    assert_eq!(
        window_system(display_env(None, None, Some(":0"))),
        WindowSystem::X11
    );
    assert_eq!(
        window_system(display_env(None, None, None)),
        WindowSystem::Neither
    );
}

#[test]
fn an_inherited_wayland_socket_counts_as_a_wayland_session() {
    assert_eq!(
        window_system(display_env(None, Some("12"), None)),
        WindowSystem::Wayland
    );
    assert_eq!(
        window_system(display_env(None, Some("12"), Some(":0"))),
        WindowSystem::Wayland
    );
}

#[test]
fn an_empty_variable_is_treated_as_unset() {
    assert_eq!(
        window_system(display_env(Some(""), Some(""), Some(""))),
        WindowSystem::Neither
    );
    assert_eq!(
        window_system(display_env(Some(""), None, Some(":0"))),
        WindowSystem::X11
    );
    assert_eq!(
        window_system(display_env(Some(""), Some("12"), Some(":0"))),
        WindowSystem::Wayland
    );
}

#[test]
fn both_backends_cap_an_absurd_extent_at_the_same_value() {
    let extreme = rect_from(Edges {
        left: i32::MIN,
        top: i32::MIN,
        right: i32::MAX,
        bottom: i32::MAX,
    });
    assert_eq!(extreme.w, MAX_EXTENT);
    let huge = WorkRect {
        x: i32::MIN,
        y: 0,
        w: u32::MAX,
        h: 1,
    };
    assert_eq!(work_area(huge, screen(u32::MAX, u32::MAX), &[]).w, MAX_EXTENT);
}

#[test]
fn an_extreme_layout_saturates_instead_of_wrapping() {
    let huge = WorkRect {
        x: i32::MIN,
        y: i32::MIN,
        w: u32::MAX,
        h: u32::MAX,
    };
    let work = work_area(huge, screen(u32::MAX, u32::MAX), &[]);
    assert_eq!(work.x, i32::MIN);
    assert_eq!(work.y, i32::MIN);
    assert_eq!(work.w, MAX_EXTENT);
    assert_eq!(work.h, MAX_EXTENT);
    let monitors = [X11Monitor {
        bounds: huge,
        mm_width: u32::MAX,
        mm_height: u32::MAX,
    }];
    assert_eq!(monitor_for_cursor((i32::MAX, i32::MAX), &monitors), Some(0));
}

#[test]
fn coordinates_saturate_and_edges_make_rectangles() {
    assert_eq!(clamp_to_i32(i64::MIN), i32::MIN);
    assert_eq!(clamp_to_i32(i64::MAX), i32::MAX);
    assert_eq!(clamp_to_i32(-7), -7);
    assert_eq!(extent_from(10, 5), 0);
    assert_eq!(extent_from(i32::MAX - 1, i64::MAX), 1);
    assert_eq!(extent_from(i32::MIN, i64::MAX), MAX_EXTENT);
    assert_eq!(
        rect_from_edges(-5, 3, 15, 23),
        WorkRect {
            x: -5,
            y: 3,
            w: 20,
            h: 20
        }
    );
}

#[test]
fn a_band_is_an_inclusive_range_against_a_half_open_span() {
    assert!(band_meets(0, 0, (0, 1)));
    assert!(!band_meets(1, 1, (0, 1)));
    assert!(!band_meets(5, 4, (0, 10)));
}

#[test]
fn the_scale_sources_are_consulted_in_order() {
    assert_eq!(
        scale_source(Some("1.5"), true, true, true),
        ScaleSource::Override
    );
    assert_eq!(
        scale_source(Some("RandR"), false, true, true),
        ScaleSource::Display
    );
    assert_eq!(
        scale_source(Some("nonsense"), false, true, true),
        ScaleSource::Xsettings
    );
    assert_eq!(
        scale_source(None, false, false, true),
        ScaleSource::XResource
    );
    assert_eq!(
        scale_source(None, false, false, false),
        ScaleSource::Display
    );
}

const DEGENERATE: [&str; 5] = ["0", "-96", "nan", "inf", "0.0"];

/// A laptop panel whose own density gives one and a half.
fn measured_monitor() -> X11Monitor {
    X11Monitor {
        bounds: WorkRect {
            x: 0,
            y: 0,
            w: 1920,
            h: 1080,
        },
        mm_width: 344,
        mm_height: 194,
    }
}

#[test]
fn a_numeric_override_wins_over_every_other_source() {
    let sources = DpiSources {
        scale_override: Some("1.75"),
        xsettings_dpi: Some(192.0),
        xft_dpi: Some("144"),
    };
    approx(scale_factor(&sources, &monitor(0, 0, 1920, 1080)), 1.75);
}

#[test]
fn the_randr_override_skips_the_dpi_sources_and_measures_the_display() {
    let laptop = measured_monitor();
    let sources = DpiSources {
        scale_override: Some("randr"),
        xsettings_dpi: Some(192.0),
        xft_dpi: Some("144"),
    };
    approx(scale_factor(&sources, &laptop), 1.5);
    let shouty = DpiSources {
        scale_override: Some("RandR"),
        ..sources
    };
    approx(scale_factor(&shouty, &laptop), 1.5);
}

#[test]
fn an_override_winit_would_reject_falls_through_instead_of_being_used() {
    for bad in ["garbage", "0", "-1.5", "nan", "inf", ""] {
        let sources = DpiSources {
            scale_override: Some(bad),
            xsettings_dpi: Some(144.0),
            xft_dpi: None,
        };
        approx(scale_factor(&sources, &monitor(0, 0, 1920, 1080)), 1.5);
    }
}

#[test]
fn xsettings_outranks_the_x_resource() {
    let sources = DpiSources {
        scale_override: None,
        xsettings_dpi: Some(192.0),
        xft_dpi: Some("96"),
    };
    approx(scale_factor(&sources, &monitor(0, 0, 1920, 1080)), 2.0);
}

#[test]
fn the_x_resource_is_used_when_no_settings_manager_is_running() {
    let sources = DpiSources {
        scale_override: None,
        xsettings_dpi: None,
        xft_dpi: Some("120"),
    };
    approx(scale_factor(&sources, &monitor(0, 0, 1920, 1080)), 1.25);
}

#[test]
fn an_unparseable_x_resource_is_the_same_as_none() {
    let sources = DpiSources {
        scale_override: None,
        xsettings_dpi: None,
        xft_dpi: Some("96dpi"),
    };
    approx(scale_factor(&sources, &measured_monitor()), 1.5);
}

#[test]
fn a_degenerate_dpi_from_either_read_source_is_neutralised_at_the_end() {
    for raw in DEGENERATE {
        let parsed: f64 = raw.parse().expect("the fixture is a float");
        let from_xsettings = DpiSources {
            scale_override: None,
            xsettings_dpi: Some(parsed),
            xft_dpi: None,
        };
        approx(scale_factor(&from_xsettings, &measured_monitor()), 1.0);
        let from_resource = DpiSources {
            scale_override: None,
            xsettings_dpi: None,
            xft_dpi: Some(raw),
        };
        approx(scale_factor(&from_resource, &measured_monitor()), 1.0);
    }
}

#[test]
fn a_degenerate_override_hands_the_chain_on_rather_than_being_substituted() {
    let laptop = measured_monitor();
    for raw in DEGENERATE {
        let rejected = DpiSources {
            scale_override: Some(raw),
            xsettings_dpi: None,
            xft_dpi: None,
        };
        approx(scale_factor(&rejected, &laptop), 1.5);
        let with_xsettings = DpiSources {
            scale_override: Some(raw),
            xsettings_dpi: Some(192.0),
            xft_dpi: None,
        };
        approx(scale_factor(&with_xsettings, &laptop), 2.0);
    }
    let honoured = DpiSources {
        scale_override: Some("1.25"),
        xsettings_dpi: Some(192.0),
        xft_dpi: None,
    };
    approx(scale_factor(&honoured, &laptop), 1.25);
}
