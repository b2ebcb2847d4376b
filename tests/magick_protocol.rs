use wallrust::builder::Query;
use wallrust::error::WallbashError;
use wallrust::magick::{
    check_brightness_dark, color_from_hsb, create_mpc_cache, extract_kmeans_colors, generate_thumbnail,
    get_average_saturation, get_hsb_hue, modulate_color, parse_histogram, parse_histogram_color,
    parse_hsb_hue, ping_image,
};

fn strs(v: &[&str]) -> Vec<String> {
    v.iter().map(|s| s.to_string()).collect()
}

#[test]
fn histogram_sorted_by_count() {
    let out = "    1234: (  0,  0,  0) #000000 black\n      99: (255,255,255) #ffffff white\n    5000: (  1,  2,  3) #010203 srgb(1,2,3)\nnoise\n";
    let h = parse_histogram(out);
    assert_eq!(
        h,
        vec![(5000, "010203".to_string()), (1234, "000000".to_string()), (99, "FFFFFF".to_string())]
    );
}

#[test]
fn histogram_keeps_order_of_equal_counts() {
    let out = "5: (1,1,1) #111111\n5: (2,2,2) #222222\n7: (3,3,3) #333333";
    let h = parse_histogram(out);
    assert_eq!(
        h,
        vec![(7, "333333".to_string()), (5, "111111".to_string()), (5, "222222".to_string())]
    );
}

#[test]
fn histogram_count_overflow_reads_as_zero() {
    let out = "99999999999999999999: (1,1,1) #ABCDEF\n3: (1,1,1) #010101";
    assert_eq!(parse_histogram(out), vec![(3, "010101".to_string()), (0, "ABCDEF".to_string())]);
}

#[test]
fn histogram_color_of_first_line() {
    assert_eq!(parse_histogram_color("\n   42: (18,52,86) #123456 srgb(18,52,86)\n").unwrap(), "123456");
    assert_eq!(parse_histogram_color("1: (1,2,3) #abcdef").unwrap(), "ABCDEF");
    assert!(matches!(parse_histogram_color("no color here"), Err(WallbashError::MagickParse(_))));
    assert!(matches!(parse_histogram_color("12: (1,2,3)#123456"), Err(WallbashError::MagickParse(_))));
}

#[test]
fn hue_from_hsb_histogram() {
    assert_eq!(parse_hsb_hue("  1: (120,50%,50%) #00FF00 hsb(120.5,50%,50%)").unwrap(), "120.5");
    assert_eq!(parse_hsb_hue("hsb(7,0%,0%)").unwrap(), "7");
    assert_eq!(parse_hsb_hue("xhsb(x hsb(33.,1,1)").unwrap(), "33.");
    assert!(matches!(parse_hsb_hue("hsb(,1,1)"), Err(WallbashError::MagickParse(_))));
}

#[test]
fn argument_lists() {
    assert_eq!(ping_image("/a.png"), strs(&["-ping", "/a.png", "-format", "%t", "info:"]));
    assert_eq!(
        create_mpc_cache("/a.png", "/c.mpc"),
        strs(&["-quiet", "-regard-warnings", "/a.png[0]", "-alpha", "off", "+repage", "/c.mpc"])
    );
    assert_eq!(
        extract_kmeans_colors("/c.mpc", 4, 70),
        strs(&[
            "mpc:/c.mpc", "-depth", "8", "-fuzz", "70%", "+dither", "-kmeans", "4", "-depth", "8",
            "-format", "%c", "histogram:info:"
        ])
    );
    assert_eq!(
        check_brightness_dark("xc:#000000"),
        strs(&["xc:#000000", "-colorspace", "gray", "-format", "%[fx:mean]", "info:"])
    );
    assert_eq!(get_average_saturation("/c.mpc")[0], "mpc:/c.mpc");
    assert_eq!(modulate_color("xc:#FF0000", 188, 10, 100)[5], "188,10,100");
    assert_eq!(get_hsb_hue("xc:#FF0000")[2], "HSB");
    assert_eq!(color_from_hsb("hsb(1,2%,3%)")[0], "xc:hsb(1,2%,3%)");
    assert_eq!(generate_thumbnail("/a.png", "/t.thmb")[0], "/a.png[0]");
}

#[test]
fn query_arguments() {
    let q = Query::FromHsb { hue: "120".to_string(), sat: 50, bri: 32 };
    assert_eq!(q.magick_args("/c.mpc")[0], "xc:hsb(120,50%,32%)");
    let q = Query::Modulate { color: "00FFFF".to_string(), bri: 16, sat: 10, hue: 100 };
    assert_eq!(q.magick_args("/c.mpc")[0], "xc:#00FFFF");
    assert_eq!(q.magick_args("/c.mpc")[5], "16,10,100");
    assert_eq!(Query::ImageIsDark.magick_args("/c.mpc")[0], "mpc:/c.mpc");
    assert_eq!(Query::ImageIsGray.magick_args("/c.mpc")[2], "HSL");
}
