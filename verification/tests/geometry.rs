use duja_platform::geometry::{
    cursor_anchor, default_work, rect_from, sane_scale, screen_index_for_cursor,
    work_area_or_default, AnchorQuery, AnchorUnit, Edges, Factor, TrayAnchor, WorkRect, MAX_EXTENT,
};

fn anchor(unit: AnchorUnit, scale: f32) -> TrayAnchor<f32> {
    TrayAnchor {
        cursor: (0, 0),
        work_area: WorkRect {
            x: 0,
            y: 0,
            w: 1920,
            h: 1040,
        },
        scale,
        unit,
    }
}

fn usable(scale: f32) -> bool {
    scale.is_finite() && scale >= 0.1
}

fn sane(scale: f32) -> f32 {
    sane_scale(scale, usable(scale), 1.0)
}

fn to_anchor(a: &TrayAnchor<f32>) -> f32 {
    a.logical_to_anchor(usable(a.scale), 1.0)
}

fn to_physical(a: &TrayAnchor<f32>) -> f32 {
    a.anchor_to_physical(usable(a.scale), 1.0)
}

fn approx(got: f32, want: f32) {
    assert!((got - want).abs() < 1e-6, "expected ~{want}, got {got}");
}

#[test]
fn a_negative_origin_survives_the_conversion() {
    let converted = rect_from(Edges {
        left: -1920,
        top: -180,
        right: 640,
        bottom: 1220,
    });
    assert_eq!(converted.x, -1920);
    assert_eq!(converted.y, -180);
    assert_eq!(converted.w, 2560);
    assert_eq!(converted.h, 1400);
}

#[test]
fn an_inverted_rect_yields_zero_extents_rather_than_underflowing() {
    let converted = rect_from(Edges {
        left: 100,
        top: 200,
        right: 40,
        bottom: 80,
    });
    assert_eq!(converted.w, 0);
    assert_eq!(converted.h, 0);
    assert_eq!(converted.x, 100, "the origin is reported as given");
    assert_eq!(converted.y, 200);
}

#[test]
fn an_extreme_rect_saturates_instead_of_overflowing() {
    let converted = rect_from(Edges {
        left: i32::MIN,
        top: i32::MIN,
        right: i32::MAX,
        bottom: i32::MAX,
    });
    assert_eq!(converted.w, i32::MAX as u32);
    assert_eq!(converted.h, i32::MAX as u32);
    assert_eq!(
        converted.w, MAX_EXTENT,
        "every backend must cap an absurd extent at the same value"
    );
}

#[test]
fn an_ordinary_primary_monitor_converts_unchanged() {
    let converted = rect_from(Edges {
        left: 0,
        top: 0,
        right: 1920,
        bottom: 1040,
    });
    assert_eq!(converted, default_work());
}

#[test]
fn physical_pixel_anchors_scale_the_logical_size_and_pass_the_position_through() {
    let a = anchor(AnchorUnit::PhysicalPixels, 2.0);
    approx(to_anchor(&a), 2.0);
    approx(to_physical(&a), 1.0);
}

#[test]
fn point_anchors_leave_the_logical_size_alone_and_scale_the_position() {
    let a = anchor(AnchorUnit::Points, 2.0);
    approx(to_anchor(&a), 1.0);
    approx(to_physical(&a), 2.0);
}

#[test]
fn the_two_factors_always_multiply_to_the_sane_scale() {
    for scale in [1.0f32, 1.25, 1.5, 2.0, 3.0, 0.0, -4.0, f32::NAN] {
        for unit in [AnchorUnit::PhysicalPixels, AnchorUnit::Points] {
            let a = anchor(unit, scale);
            approx(to_anchor(&a) * to_physical(&a), sane(scale));
        }
    }
}

#[test]
fn a_degenerate_scale_is_neutralised_in_both_factors() {
    for scale in [f32::NAN, f32::INFINITY, 0.0, -2.0] {
        for unit in [AnchorUnit::PhysicalPixels, AnchorUnit::Points] {
            let a = anchor(unit, scale);
            approx(to_anchor(&a), 1.0);
            approx(to_physical(&a), 1.0);
        }
    }
}

#[test]
fn a_degenerate_scale_falls_back_to_one() {
    assert!((sane(f32::NAN) - 1.0).abs() < f32::EPSILON);
    assert!((sane(f32::INFINITY) - 1.0).abs() < f32::EPSILON);
    assert!((sane(0.0) - 1.0).abs() < f32::EPSILON);
    assert!((sane(-2.0) - 1.0).abs() < f32::EPSILON);
}

#[test]
fn a_plausible_scale_is_passed_through() {
    assert!((sane(1.0) - 1.0).abs() < f32::EPSILON);
    assert!((sane(1.5) - 1.5).abs() < f32::EPSILON);
    assert!((sane(3.0) - 3.0).abs() < f32::EPSILON);
}

#[test]
fn an_unusable_scale_counts_as_one_in_any_number_type() {
    let a = TrayAnchor {
        cursor: (3, 4),
        work_area: default_work(),
        scale: 7_u32,
        unit: AnchorUnit::Points,
    };
    let b = a;
    assert_eq!(a, b);
    assert_eq!(a.anchor_to_physical(true, 1), 7);
    assert_eq!(a.anchor_to_physical(false, 1), 1);
    assert_eq!(a.logical_to_anchor(true, 1), 1);
    assert_eq!(sane_scale(7, false, 1), 1);
}

#[test]
fn the_fallback_work_area_is_a_usable_rectangle() {
    assert!(default_work().w > 0 && default_work().h > 0);
}

#[test]
fn each_unit_scales_exactly_once() {
    assert_eq!(AnchorUnit::PhysicalPixels.logical_to_anchor(), Factor::Scale);
    assert_eq!(AnchorUnit::PhysicalPixels.anchor_to_physical(), Factor::One);
    assert_eq!(AnchorUnit::Points.logical_to_anchor(), Factor::One);
    assert_eq!(AnchorUnit::Points.anchor_to_physical(), Factor::Scale);
}

#[test]
fn a_failed_work_area_query_takes_the_default() {
    assert_eq!(work_area_or_default(None), default_work());
    let edges = Edges {
        left: 1,
        top: 2,
        right: 11,
        bottom: 22,
    };
    assert_eq!(
        work_area_or_default(Some(edges)),
        WorkRect {
            x: 1,
            y: 2,
            w: 10,
            h: 20
        }
    );
}

#[test]
fn an_anchor_always_comes_back() {
    let windows = cursor_anchor(
        AnchorQuery::Windows {
            cursor: None,
            work: None,
            scale: 1.5_f32,
        },
        1.0,
    );
    assert_eq!(windows.cursor, (0, 0));
    assert_eq!(windows.work_area, default_work());
    assert_eq!(windows.unit, AnchorUnit::PhysicalPixels);
    approx(windows.scale, 1.5);

    let read = cursor_anchor(
        AnchorQuery::Windows {
            cursor: Some((-3, 7)),
            work: Some(Edges {
                left: -10,
                top: 0,
                right: 90,
                bottom: 50,
            }),
            scale: 2.0_f32,
        },
        1.0,
    );
    assert_eq!(read.cursor, (-3, 7));
    assert_eq!(read.work_area.x, -10);
    assert_eq!(read.work_area.w, 100);

    let mac = cursor_anchor(AnchorQuery::MacOs(None), 1.0_f32);
    assert_eq!(mac.unit, AnchorUnit::Points);
    approx(to_physical(&mac), 1.0);

    let measured = anchor(AnchorUnit::PhysicalPixels, 2.0);
    let on_wayland = cursor_anchor(
        AnchorQuery::Linux {
            is_x11: false,
            measured: Some(measured),
        },
        1.0,
    );
    approx(on_wayland.scale, 1.0);
    let on_x11 = cursor_anchor(
        AnchorQuery::Linux {
            is_x11: true,
            measured: Some(anchor(AnchorUnit::PhysicalPixels, 2.0)),
        },
        1.0,
    );
    approx(on_x11.scale, 2.0);
    let elsewhere = cursor_anchor(AnchorQuery::NoBackend, 1.0_f32);
    assert_eq!(elsewhere.work_area, default_work());
}

#[test]
fn the_first_screen_with_the_cursor_wins_and_the_primary_stands_in() {
    assert_eq!(screen_index_for_cursor(&[]), None);
    assert_eq!(screen_index_for_cursor(&[false, true, true]), Some(1));
    assert_eq!(screen_index_for_cursor(&[false, false]), Some(0));
    assert_eq!(screen_index_for_cursor(&[true, true]), Some(0));
}
