use rm_pad::display::{find_hcf, match_two_non_zero_u32, AspectRatio, Resolution, SizeData};

#[test]
fn hcf_values() {
    assert_eq!(find_hcf(12, 18), 6);
    assert_eq!(find_hcf(1920, 1080), 120);
    assert_eq!(find_hcf(7, 0), 7);
    assert_eq!(find_hcf(0, 9), 9);
    assert_eq!(find_hcf(0, 0), 0);
    assert_eq!(find_hcf(17, 5), 1);
}

#[test]
fn aspect_ratio_is_reduced() {
    let r = AspectRatio::new(1920, 1080);
    assert_eq!((r.get_width(), r.get_height()), (16, 9));
    let r = AspectRatio::new(0, 5);
    assert_eq!((r.get_width(), r.get_height()), (0, 1));
    let a = AspectRatio::new(32, 18);
    let b = AspectRatio::new(16, 9);
    assert_eq!((a.get_width(), a.get_height()), (b.get_width(), b.get_height()));
}

#[test]
fn aspect_ratio_parsing() {
    let r: AspectRatio = " 16 : 10 ".parse().unwrap();
    assert_eq!((r.get_width(), r.get_height()), (8, 5));
    let r = AspectRatio::try_from_str("+4:+3").unwrap();
    assert_eq!((r.get_width(), r.get_height()), (4, 3));
    assert_eq!(
        AspectRatio::try_from_str("16:0").unwrap_err(),
        "Invalid aspect ratio '16:0'. Valid format: 'WIDTH:HEIGHT'. Valid range: non-zero positive 32 bit integers"
    );
    assert!(AspectRatio::try_from_str("1:2:3").is_err());
    assert!(AspectRatio::try_from_str("16x9").is_err());
    assert!(AspectRatio::try_from_str("-1:2").is_err());
}

#[test]
fn resolution_parsing() {
    let r: Resolution = "1920x1080".parse().unwrap();
    assert_eq!((r.get_width(), r.get_height()), (1920, 1080));
    let r = Resolution::try_from_str("2560 X 1440").unwrap();
    assert_eq!((r.get_width(), r.get_height()), (2560, 1440));
    let r = Resolution::try_from_str("4294967295x1").unwrap();
    assert_eq!(r.get_width(), u32::MAX);
    assert!(Resolution::try_from_str("4294967296x1").is_err());
    assert!(Resolution::try_from_str("x1").is_err());
    assert!(Resolution::try_from_str("+x1").is_err());
    assert_eq!(
        Resolution::try_from_str("0X5").unwrap_err(),
        "Invalid resolution '0X5'. Valid format: 'WIDTHxHEIGHT'. Valid range: non-zero positive 32 bit integers"
    );
}

#[test]
fn two_non_zero_with_unicode_whitespace() {
    assert_eq!(match_two_non_zero_u32("\u{3000}3\u{a0}:\t4\n", ':'), Some((3, 4)));
    assert_eq!(match_two_non_zero_u32("3:4:", ':'), None);
    assert_eq!(match_two_non_zero_u32("", ':'), None);
}

#[test]
fn size_text_roundtrip() {
    let r = Resolution::new(1920, 1080);
    assert_eq!(r.to_string(), "1920x1080");
    let back = Resolution::try_from_str(&r.to_string()).unwrap();
    assert_eq!((back.get_width(), back.get_height()), (1920, 1080));
    let a = AspectRatio::new(21, 9);
    assert_eq!(a.to_string(), "7:3");
    let back = AspectRatio::try_from_str(&a.to_string()).unwrap();
    assert_eq!((back.get_width(), back.get_height()), (7, 3));
}

#[test]
fn size_data_dimensions() {
    let s = SizeData::AspectRatio(AspectRatio::new(4, 2));
    assert_eq!((s.get_width(), s.get_height()), (2, 1));
    assert_eq!(s.to_string(), "2:1");
    let s = SizeData::Resolution(Resolution::new(800, 600));
    assert_eq!((s.get_width(), s.get_height()), (800, 600));
    assert_eq!(s.to_string(), "800x600");
}
