use wallrust::cache::{calculate_checksum, create_cache_data, needs_regeneration, CacheVerdict};
use wallrust::config::{ColorProfile, SortMode};
use wallrust::palette::Palette;

fn palette() -> Palette {
    Palette {
        mode: "dark".to_string(),
        wallpaper: "/img/a.png".to_string(),
        primary: vec!["000000".to_string()],
        text: vec!["FFFFFF".to_string()],
        accents: vec![vec!["111111".to_string(); 9]],
        primary_rgba: vec!["rgba(0,0,0,\\1)".to_string()],
        text_rgba: vec!["rgba(255,255,255,\\1)".to_string()],
        accents_rgba: vec![vec!["rgba(17,17,17,\\1)".to_string(); 9]],
        is_dark: true,
    }
}

fn entry() -> wallrust::cache::CacheData {
    create_cache_data("/img/a.png", b"image bytes", &ColorProfile::Default, SortMode::Dark, palette(), false)
}

#[test]
fn checksum_is_sha256_in_lower_hex() {
    assert_eq!(
        calculate_checksum(b"abc"),
        "ba7816bf8f01cfea414140de5dae2223b00361a396177a9cb410ff61f20015ad"
    );
    assert_eq!(
        calculate_checksum(b""),
        "e3b0c44298fc1c149afbf4c8996fb92427ae41e4649b934ca495991b7852b855"
    );
}

#[test]
fn created_entry_holds_inputs() {
    let e = entry();
    assert_eq!(e.image_path, "/img/a.png");
    assert_eq!(e.image_checksum, calculate_checksum(b"image bytes"));
    assert_eq!(e.color_profile, ColorProfile::Default);
    assert_eq!(e.sort_mode, SortMode::Dark);
    assert!(!e.wallset);
    assert_eq!(e.palette.primary, vec!["000000".to_string()]);
}

#[test]
fn unchanged_file_returns_stored_palette() {
    let v = needs_regeneration(Some(entry()), "/img/a.png", &ColorProfile::Default, SortMode::Dark, false, None);
    assert!(matches!(v, CacheVerdict::NeedsChecksum));
    let sum = calculate_checksum(b"image bytes");
    match needs_regeneration(Some(entry()), "/img/a.png", &ColorProfile::Default, SortMode::Dark, false, Some(&sum)) {
        CacheVerdict::Fresh(p) => {
            assert_eq!(p.primary, vec!["000000".to_string()]);
            assert_eq!(p.accents[0].len(), 9);
        }
        other => panic!("unexpected {:?}", other),
    }
}

#[test]
fn changed_file_invalidates() {
    let sum = calculate_checksum(b"other bytes");
    let v = needs_regeneration(Some(entry()), "/img/a.png", &ColorProfile::Default, SortMode::Dark, false, Some(&sum));
    assert!(matches!(v, CacheVerdict::Stale));
}

#[test]
fn changed_profile_invalidates() {
    let sum = calculate_checksum(b"image bytes");
    let v = needs_regeneration(Some(entry()), "/img/a.png", &ColorProfile::Vibrant, SortMode::Dark, false, Some(&sum));
    assert!(matches!(v, CacheVerdict::Stale));
    let v = needs_regeneration(Some(entry()), "/img/a.png", &ColorProfile::Default, SortMode::Dark, false, None);
    assert!(matches!(v, CacheVerdict::NeedsChecksum));
}

#[test]
fn changed_path_mode_or_method_invalidates() {
    let sum = calculate_checksum(b"image bytes");
    let v = needs_regeneration(Some(entry()), "/img/b.png", &ColorProfile::Default, SortMode::Dark, false, Some(&sum));
    assert!(matches!(v, CacheVerdict::Stale));
    let v = needs_regeneration(Some(entry()), "/img/a.png", &ColorProfile::Default, SortMode::Auto, false, Some(&sum));
    assert!(matches!(v, CacheVerdict::Stale));
    let v = needs_regeneration(Some(entry()), "/img/a.png", &ColorProfile::Default, SortMode::Dark, true, Some(&sum));
    assert!(matches!(v, CacheVerdict::Stale));
}

#[test]
fn no_record_is_stale() {
    let v = needs_regeneration(None, "/img/a.png", &ColorProfile::Default, SortMode::Dark, false, None);
    assert!(matches!(v, CacheVerdict::Stale));
}

#[test]
fn custom_profiles_compare_by_curve() {
    let e = create_cache_data("/p", b"x", &ColorProfile::Custom("1 2".to_string()), SortMode::Light, palette(), true);
    let sum = calculate_checksum(b"x");
    let same = needs_regeneration(Some(e), "/p", &ColorProfile::Custom("1 2".to_string()), SortMode::Light, true, Some(&sum));
    assert!(matches!(same, CacheVerdict::Fresh(_)));
    let e = create_cache_data("/p", b"x", &ColorProfile::Custom("1 2".to_string()), SortMode::Light, palette(), true);
    let other = needs_regeneration(Some(e), "/p", &ColorProfile::Custom("1 3".to_string()), SortMode::Light, true, Some(&sum));
    assert!(matches!(other, CacheVerdict::Stale));
}
