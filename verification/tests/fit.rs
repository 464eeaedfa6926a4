use rm_pad::fit::{FitMode, Rect};

// A wide pen area (2:1) fitted into a tall target (1:2), origin at 0.
const IN_W: i64 = 200;
const IN_H: i64 = 100;
const TARGET: Rect = Rect { x: 0, y: 0, w: 100, h: 200 };

#[test]
fn fill_uses_whole_target() {
    let d = FitMode::Fill.dest_rect(IN_W, IN_H, TARGET);
    assert_eq!((d.x, d.y, d.w, d.h), (0, 0, 100, 200));
}

#[test]
fn contain_letterboxes_inside_target() {
    // Pen is 2:1, target is 100 wide -> height 50, centered vertically.
    let d = FitMode::Contain.dest_rect(IN_W, IN_H, TARGET);
    assert_eq!((d.w, d.h), (100, 50));
    assert_eq!((d.x, d.y), (0, 75)); // (200-50)/2
}

#[test]
fn cover_overflows_and_centers() {
    // To cover a 200-tall target with a 2:1 pen, width -> 400, centered.
    let d = FitMode::Cover.dest_rect(IN_W, IN_H, TARGET);
    assert_eq!((d.w, d.h), (400, 200));
    assert_eq!((d.x, d.y), (-150, 0)); // (100-400)/2
}

#[test]
fn cover_clamps_to_target() {
    // Extremes of the pen must stay within the target rectangle.
    let tl = FitMode::Cover.map(0, 0, IN_W, IN_H, TARGET);
    let br = FitMode::Cover.map(IN_W, IN_H, IN_W, IN_H, TARGET);
    assert_eq!(tl, (0, 0));
    assert_eq!(br, (TARGET.w - 1, TARGET.h - 1));
}

#[test]
fn contain_maps_center_to_target_center() {
    let (cx, cy) = FitMode::Contain.map(IN_W / 2, IN_H / 2, IN_W, IN_H, TARGET);
    assert!((cx - TARGET.w / 2).abs() <= 1, "cx={cx}");
    assert!((cy - TARGET.h / 2).abs() <= 1, "cy={cy}");
}

#[test]
fn fill_matches_plain_linear_mapping() {
    // Fill with an offset target must reproduce origin + x*(w-1)/in.
    let t = Rect { x: 10, y: 20, w: 100, h: 200 };
    let (x, y) = FitMode::Fill.map(IN_W, 0, IN_W, IN_H, t);
    assert_eq!((x, y), (10 + (t.w - 1), 20));
}

#[test]
fn odd_overflow_centers_toward_zero() {
    // (100 - 301) / 2 truncates toward zero: -100, not -101.
    let d = FitMode::Cover.dest_rect(301, 200, Rect { x: 0, y: 0, w: 100, h: 200 });
    assert_eq!((d.x, d.y, d.w, d.h), (-100, 0, 301, 200));
}

#[test]
fn contain_tall_pen_pillarboxes() {
    // A 1:2 pen in a 200x100 target: width limited by height -> 50x100.
    let d = FitMode::Contain.dest_rect(100, 200, Rect { x: 5, y: 7, w: 200, h: 100 });
    assert_eq!((d.x, d.y, d.w, d.h), (5 + 75, 7, 50, 100));
}

#[test]
fn zero_sized_pen_counts_as_one() {
    let d = FitMode::Contain.dest_rect(0, -5, Rect { x: 0, y: 0, w: 100, h: 50 });
    // 1:1 pen into 100x50 -> 50x50 centered horizontally.
    assert_eq!((d.x, d.y, d.w, d.h), (25, 0, 50, 50));
}

#[test]
fn map_is_monotone_and_clamped() {
    let t = Rect { x: -10, y: 0, w: 30, h: 40 };
    let mut last = i64::MIN;
    for x in -50..300 {
        let (ox, oy) = FitMode::Cover.map(x, 0, 200, 100, t);
        assert!(ox >= last);
        assert!(ox >= t.x && ox < t.x + t.w);
        assert!(oy >= t.y && oy < t.y + t.h);
        last = ox;
    }
}

#[test]
fn fit_mode_parse_and_names() {
    assert_eq!(FitMode::default(), FitMode::Fill);
    assert_eq!("Stretch".parse::<FitMode>().unwrap(), FitMode::Fill);
    assert_eq!("FIT".parse::<FitMode>().unwrap(), FitMode::Contain);
    assert_eq!("cover".parse::<FitMode>().unwrap(), FitMode::Cover);
    assert_eq!(
        FitMode::try_from_str("squash"),
        Err("Invalid fit mode 'squash'. Valid values: fill, contain, cover".to_string())
    );
    for m in [FitMode::Fill, FitMode::Contain, FitMode::Cover] {
        assert_eq!(m.to_string().parse::<FitMode>().unwrap(), m);
    }
    assert_eq!(FitMode::Contain.to_string(), "contain");
}

#[test]
fn dest_depends_on_pen_aspect_only() {
    let t = Rect { x: 3, y: -7, w: 101, h: 59 };
    for m in [FitMode::Fill, FitMode::Contain, FitMode::Cover] {
        for k in 1..5 {
            let a = m.dest_rect(k * 21, k * 13, t);
            let b = m.dest_rect(21, 13, t);
            assert_eq!((a.x, a.y, a.w, a.h), (b.x, b.y, b.w, b.h));
        }
    }
}
