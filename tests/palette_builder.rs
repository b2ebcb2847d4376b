use wallrust::builder::{PaletteBuilder, Query, Reply};
use wallrust::color::rgb_negative;
use wallrust::config::{ColorProfile, SortMode};
use wallrust::error::WallbashError;
use wallrust::palette::{sort_by_luma, Palette};

/// A stand-in for the image tool: deterministic answers to every question.
fn answer(q: &Query, log: &mut Vec<String>) -> Reply {
    match q {
        Query::ImageIsDark => Reply::Flag(true),
        Query::ImageIsGray => Reply::Flag(false),
        Query::ColorIsDark(c) => {
            log.push(format!("dark? {}", c));
            Reply::Flag(c == "000000" || c == "FF0000")
        }
        Query::Modulate { color, bri, sat, hue } => {
            log.push(format!("modulate {} {},{},{}", color, bri, sat, hue));
            Reply::Text(rgb_negative(color).unwrap())
        }
        Query::Hue(c) => {
            log.push(format!("hue {}", c));
            Reply::Text("120".to_string())
        }
        Query::FromHsb { hue, sat, bri } => {
            log.push(format!("hsb {} {} {}", hue, sat, bri));
            Reply::Text(format!("{:02X}{:02X}{:02X}", sat, bri, sat))
        }
    }
}

fn run(mut b: PaletteBuilder, log: &mut Vec<String>) -> Result<Palette, WallbashError> {
    while let Some(q) = b.query() {
        let r = answer(&q, log);
        b.resume(r);
    }
    b.finish()
}

fn colors(cs: &[&str]) -> Vec<String> {
    cs.iter().map(|c| c.to_string()).collect()
}

fn is_hex6(s: &str) -> bool {
    s.len() == 6 && s.chars().all(|c| c.is_ascii_hexdigit())
}

#[test]
fn end_to_end_dark_mode_orders_by_luma() {
    let b = PaletteBuilder::new(
        "wall.png".to_string(),
        colors(&["000000", "FFFFFF", "FF0000"]),
        3,
        ColorProfile::Default,
        SortMode::Dark,
    );
    let mut log = Vec::new();
    let p = run(b, &mut log).unwrap();
    assert_eq!(p.primary, colors(&["000000", "FF0000", "FFFFFF"]));
    assert_eq!(p.mode, "dark");
    assert!(p.is_dark);
    assert_eq!(p.wallpaper, "wall.png");
    assert_eq!(p.text.len(), 3);
    for i in 0..3 {
        assert!(is_hex6(&p.text[i]));
        assert_eq!(p.accents[i].len(), 9);
        assert_eq!(p.accents_rgba[i].len(), 9);
        for a in &p.accents[i] {
            assert!(is_hex6(a));
        }
    }
    assert_eq!(p.primary_rgba[1], "rgba(255,0,0,\\1)");
    // the text color modulates the negative of the primary color
    assert!(log.contains(&"modulate FFFFFF 188,10,100".to_string()));
    assert!(log.contains(&"modulate FFFFFF 16,10,100".to_string()) == false);
    assert!(log.contains(&"modulate 000000 16,10,100".to_string()));
    // accents follow the default curve by ascending brightness
    assert!(log.contains(&"hsb 120 50 32".to_string()));
    assert!(log.contains(&"hsb 120 20 100".to_string()));
    assert_eq!(p.accents[0][0], "322032");
}

#[test]
fn light_mode_reverses_order_and_curve() {
    let b = PaletteBuilder::new(
        "w".to_string(),
        colors(&["000000", "FFFFFF", "FF0000"]),
        3,
        ColorProfile::Default,
        SortMode::Light,
    );
    let mut log = Vec::new();
    let p = run(b, &mut log).unwrap();
    assert_eq!(p.primary, colors(&["FFFFFF", "FF0000", "000000"]));
    assert_eq!(p.mode, "light");
    assert!(!p.is_dark);
    assert_eq!(p.accents[0][0], "146414");
}

#[test]
fn auto_mode_asks_the_image() {
    let b = PaletteBuilder::new(
        "w".to_string(),
        colors(&["FFFFFF", "000000"]),
        2,
        ColorProfile::Vibrant,
        SortMode::Auto,
    );
    assert!(matches!(b.query(), Some(Query::ImageIsDark)));
    let mut log = Vec::new();
    let p = run(b, &mut log).unwrap();
    assert_eq!(p.mode, "dark");
    assert_eq!(p.primary, colors(&["000000", "FFFFFF"]));
}

#[test]
fn missing_primaries_are_derived() {
    let b = PaletteBuilder::new(
        "w".to_string(),
        colors(&["000000"]),
        3,
        ColorProfile::Default,
        SortMode::Dark,
    );
    let mut log = Vec::new();
    let p = run(b, &mut log).unwrap();
    assert_eq!(p.primary.len(), 3);
    assert_eq!(p.text.len(), 3);
    assert_eq!(p.accents.len(), 3);
    // derived from a dark predecessor with the dark triple
    assert_eq!(p.primary[1], "FFFFFF");
    assert!(log.contains(&"modulate 000000 116,110,88".to_string()));
    // then from a light predecessor with the light triple
    assert!(log.contains(&"modulate FFFFFF 100,100,114".to_string()));
    for row in &p.accents {
        assert_eq!(row.len(), 9);
    }
}

#[test]
fn no_candidates_is_not_enough_colors() {
    let b = PaletteBuilder::new("w".to_string(), vec![], 2, ColorProfile::Default, SortMode::Dark);
    let mut log = Vec::new();
    match run(b, &mut log) {
        Err(WallbashError::NotEnoughColors { required, found }) => {
            assert_eq!(required, 2);
            assert_eq!(found, 0);
        }
        other => panic!("unexpected {:?}", other),
    }
}

#[test]
fn zero_colors_gives_empty_palette() {
    let b = PaletteBuilder::new("w".to_string(), vec![], 0, ColorProfile::Default, SortMode::Dark);
    let mut log = Vec::new();
    let p = run(b, &mut log).unwrap();
    assert!(p.primary.is_empty() && p.text.is_empty() && p.accents.is_empty());
}

#[test]
fn short_curve_is_padded_with_black() {
    let b = PaletteBuilder::new(
        "w".to_string(),
        colors(&["336699"]),
        1,
        ColorProfile::Custom("10 20\n30 40".to_string()),
        SortMode::Dark,
    );
    let mut log = Vec::new();
    let p = run(b, &mut log).unwrap();
    assert_eq!(p.accents[0].len(), 9);
    assert_eq!(p.accents[0][0], "140A14");
    assert_eq!(p.accents[0][1], "281E28");
    for k in 2..9 {
        assert_eq!(p.accents[0][k], "000000");
        assert_eq!(p.accents_rgba[0][k], "rgba(0,0,0,\\1)");
    }
}

#[test]
fn gray_image_forces_mono_curve() {
    let mut b = PaletteBuilder::new(
        "w".to_string(),
        colors(&["336699"]),
        1,
        ColorProfile::Vibrant,
        SortMode::Dark,
    );
    assert!(matches!(b.query(), Some(Query::ImageIsGray)));
    b.resume(Reply::Flag(true));
    let mut log = Vec::new();
    let p = run(b, &mut log).unwrap();
    assert!(log.contains(&"hsb 120 0 10".to_string()));
    assert_eq!(p.accents[0][8], "006300");
}

#[test]
fn invalid_custom_curve_fails() {
    let b = PaletteBuilder::new(
        "w".to_string(),
        colors(&["336699"]),
        1,
        ColorProfile::Custom("10 20\n150 5".to_string()),
        SortMode::Dark,
    );
    let mut log = Vec::new();
    assert!(matches!(run(b, &mut log), Err(WallbashError::CurveValueOutOfRange(_))));
}

#[test]
fn invalid_candidate_fails() {
    let b = PaletteBuilder::new(
        "w".to_string(),
        colors(&["zzzzzz"]),
        1,
        ColorProfile::Default,
        SortMode::Dark,
    );
    let mut log = Vec::new();
    assert!(matches!(run(b, &mut log), Err(WallbashError::InvalidHexColor(_))));
}

#[test]
fn wrong_kind_of_answer_fails() {
    let mut b = PaletteBuilder::new(
        "w".to_string(),
        colors(&["336699"]),
        1,
        ColorProfile::Default,
        SortMode::Dark,
    );
    b.resume(Reply::Text("oops".to_string()));
    assert!(b.query().is_none());
    assert!(matches!(b.finish(), Err(WallbashError::OutOfTurn)));
}

#[test]
fn unfinished_build_cannot_finish() {
    let b = PaletteBuilder::new("w".to_string(), colors(&["336699"]), 1, ColorProfile::Default, SortMode::Auto);
    assert!(matches!(b.finish(), Err(WallbashError::OutOfTurn)));
}

#[test]
fn sort_by_luma_is_stable() {
    let cs = colors(&["FFFFFF", "000000", "ff0000", "FF0000", "bad"]);
    assert_eq!(
        sort_by_luma(&cs, SortMode::Dark),
        colors(&["000000", "bad", "ff0000", "FF0000", "FFFFFF"])
    );
    assert_eq!(
        sort_by_luma(&cs, SortMode::Light),
        colors(&["FFFFFF", "FF0000", "ff0000", "bad", "000000"])
    );
}
