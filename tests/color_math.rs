use wallrust::color::{calculate_luma, format_hex, rgb_negative, rgba_convert, to_rgb, Rgb};
use wallrust::error::WallbashError;

#[test]
fn negate_inverts_each_channel() {
    assert_eq!(rgb_negative("1A2B3C").unwrap(), "E5D4C3");
    assert_eq!(rgb_negative("#ffffff").unwrap(), "000000");
    assert_eq!(rgb_negative("000000").unwrap(), "FFFFFF");
}

#[test]
fn negate_twice_gives_back_canonical_color() {
    for hex in ["1A2B3C", "000000", "FFFFFF", "7F80FE", "C0FFEE"] {
        let once = rgb_negative(hex).unwrap();
        assert_eq!(rgb_negative(&once).unwrap(), hex);
    }
    // a lower-case input comes back canonical
    let twice = rgb_negative(&rgb_negative("c0ffee").unwrap()).unwrap();
    assert_eq!(twice, "C0FFEE");
}

#[test]
fn negate_rejects_invalid_colors() {
    assert!(matches!(rgb_negative("12345"), Err(WallbashError::InvalidHexColor(s)) if s == "12345"));
    assert!(matches!(rgb_negative("GG0000"), Err(WallbashError::InvalidHexColor(_))));
    assert!(matches!(rgb_negative("##000000"), Err(WallbashError::InvalidHexColor(_))));
    assert!(matches!(rgb_negative(""), Err(WallbashError::InvalidHexColor(_))));
}

#[test]
fn rgba_template_keeps_placeholder() {
    assert_eq!(rgba_convert("AABBCC").unwrap(), "rgba(170,187,204,\\1)");
    assert_eq!(rgba_convert("#000000").unwrap(), "rgba(0,0,0,\\1)");
    assert_eq!(rgba_convert("0a6409").unwrap(), "rgba(10,100,9,\\1)");
    for hex in ["000000", "FFFFFF", "123456", "ABCDEF", "0F0F0F"] {
        assert!(rgba_convert(hex).unwrap().ends_with(",\\1)"));
    }
}

#[test]
fn rgba_rejects_invalid_colors() {
    assert!(matches!(rgba_convert("12 456"), Err(WallbashError::InvalidHexColor(_))));
    assert!(matches!(rgba_convert("1234567"), Err(WallbashError::InvalidHexColor(_))));
}

#[test]
fn to_rgb_reads_channels() {
    assert_eq!(to_rgb("#00FF80").unwrap(), Rgb { r: 0, g: 255, b: 128 });
    assert_eq!(to_rgb("a0b1c2").unwrap(), Rgb { r: 160, g: 177, b: 194 });
    assert_eq!(format_hex(Rgb { r: 1, g: 171, b: 255 }), "01ABFF");
}

#[test]
fn luma_exact_values() {
    assert_eq!(calculate_luma("000000"), 0);
    assert_eq!(calculate_luma("FFFFFF"), 1_000_000_000_000_000);
    assert_eq!(calculate_luma("FF0000"), 212_600_000_000_000);
    assert_eq!(calculate_luma("00FF00"), 715_200_000_000_000);
    assert_eq!(calculate_luma("0000FF"), 72_200_000_000_000);
}

#[test]
fn luma_of_invalid_color_is_zero() {
    assert_eq!(calculate_luma("nothex"), 0);
    assert_eq!(calculate_luma("FFF"), 0);
}

#[test]
fn luma_grows_with_each_channel() {
    let mut prev = 0u64;
    for v in 0..=255u32 {
        let hex = format!("{:02X}0000", v);
        let l = calculate_luma(&hex);
        assert!(l >= prev);
        prev = l;
    }
    let base = calculate_luma("102030");
    assert!(calculate_luma("112030") >= base);
    assert!(calculate_luma("102130") >= base);
    assert!(calculate_luma("102031") >= base);
}

#[test]
fn luma_matches_gamma_formula() {
    let got = calculate_luma("800000") as f64 / 1e15;
    let c = 128.0f64 / 255.0;
    let expected = 0.2126 * ((c + 0.055) / 1.055).powf(2.4);
    assert!((got - expected).abs() < 1e-9);
}
