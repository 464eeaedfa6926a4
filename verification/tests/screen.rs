use rm_pad::fit::{FitMode, Rect};
use rm_pad::screen::{compute_desktop_map, desktop_map_fits, resolve_from_rects, SCALE};

fn rect(x: i64, y: i64, w: i64, h: i64) -> Rect {
    Rect { x, y, w, h }
}

#[test]
fn desktop_map_spans_full_logical_bounding_box() {
    // DP-2 + HDMI side by side, plus a scaled monitor below (2080 tall).
    let rects = [rect(0, 0, 1920, 1080), rect(1920, 0, 1920, 1080), rect(0, 1080, 1600, 1000)];
    let map = compute_desktop_map(&rects, FitMode::Contain);
    assert_eq!(map.axis_x_max, (3840 * SCALE - 1) as i32);
    assert_eq!(map.axis_y_max, (2080 * SCALE - 1) as i32);
}

#[test]
fn contain_letterboxes_wide_pen_on_tall_desktop() {
    // Single tall desktop 1000x2000; a 2:1 pen must letterbox to a
    // 1000x500 band centered vertically.
    let map = compute_desktop_map(&[rect(0, 0, 1000, 2000)], FitMode::Contain);
    // Pen top-left -> left edge, and vertically inside the band (y>0).
    let (x0, y0) = map.map(0, 0, 2000, 1000);
    let (x1, y1) = map.map(2000, 1000, 2000, 1000);
    assert_eq!(x0, 0);
    assert_eq!(x1, (1000 * SCALE - 1) as i32);
    assert!(y0 > 0, "top should be letterboxed down, y0={y0}");
    assert!(y1 < (2000 * SCALE - 1) as i32, "bottom letterboxed up, y1={y1}");
}

#[test]
fn fill_stretches_corner_to_corner() {
    let map = compute_desktop_map(&[rect(0, 0, 1000, 2000)], FitMode::Fill);
    assert_eq!(map.map(0, 0, 2000, 1000), (0, 0));
    assert_eq!(
        map.map(2000, 1000, 2000, 1000),
        ((1000 * SCALE - 1) as i32, (2000 * SCALE - 1) as i32)
    );
}

#[test]
fn desktop_label_describes_size_and_mode() {
    let rects = [rect(-100, 50, 1920, 1080), rect(1820, 0, 800, 600)];
    let map = compute_desktop_map(&rects, FitMode::Cover);
    assert_eq!(map.label, "whole desktop 2720x1130 (cover fit)");
    assert_eq!(map.axis_x_max, (2720 * SCALE - 1) as i32);
    assert_eq!(map.axis_y_max, (1130 * SCALE - 1) as i32);
}

#[test]
fn resolve_needs_fit_and_displays() {
    let rects = [rect(0, 0, 100, 100)];
    assert!(resolve_from_rects(FitMode::Fill, &rects).is_none());
    assert!(resolve_from_rects(FitMode::Contain, &[]).is_none());
    let m = resolve_from_rects(FitMode::Contain, &rects).unwrap();
    assert_eq!(m.label, "whole desktop 100x100 (contain fit)");
}

#[test]
fn desktop_map_fits_detects_overflow() {
    assert!(desktop_map_fits(&[rect(0, 0, 1920, 1080)]));
    assert!(!desktop_map_fits(&[]));
    assert!(!desktop_map_fits(&[rect(i64::MAX, 0, 1, 1)]));
    assert!(!desktop_map_fits(&[rect(0, 0, i64::MAX / 8, 1)]));
    assert!(desktop_map_fits(&[rect(0, 0, i64::MAX / 32, 1)]));
}
