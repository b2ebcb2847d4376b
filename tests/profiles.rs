use wallrust::config::{ColorProfile, SortMode, CURVE_PASTEL, CURVE_VIBRANT};
use wallrust::error::WallbashError;

#[test]
fn profile_from_single_flag() {
    assert_eq!(ColorProfile::from_cli(false, false, false, None).unwrap(), ColorProfile::Default);
    assert_eq!(ColorProfile::from_cli(true, false, false, None).unwrap(), ColorProfile::Vibrant);
    assert_eq!(ColorProfile::from_cli(false, true, false, None).unwrap(), ColorProfile::Pastel);
    assert_eq!(ColorProfile::from_cli(false, false, true, None).unwrap(), ColorProfile::Mono);
}

#[test]
fn custom_profile_unescapes_line_breaks() {
    let p = ColorProfile::from_cli(false, false, false, Some("10 20\\n30 40".to_string())).unwrap();
    assert_eq!(p, ColorProfile::Custom("10 20\n30 40".to_string()));
    assert_eq!(p.to_curve_string(), "10 20\n30 40");
}

#[test]
fn conflicting_profiles_are_rejected() {
    assert!(matches!(
        ColorProfile::from_cli(true, true, false, None),
        Err(WallbashError::ConflictingProfiles)
    ));
    assert!(matches!(
        ColorProfile::from_cli(false, false, true, Some("1 1".to_string())),
        Err(WallbashError::ConflictingProfiles)
    ));
    assert!(ColorProfile::from_cli(false, false, true, Some(String::new())).unwrap_err().is_invalid_input());
}

#[test]
fn curve_strings_of_profiles() {
    assert_eq!(ColorProfile::Vibrant.to_curve_string(), CURVE_VIBRANT);
    assert_eq!(ColorProfile::Pastel.to_curve_string(), CURVE_PASTEL);
}

#[test]
fn sort_mode_from_flags() {
    assert_eq!(SortMode::from_cli(false, false).unwrap(), SortMode::Auto);
    assert_eq!(SortMode::from_cli(true, false).unwrap(), SortMode::Dark);
    assert_eq!(SortMode::from_cli(false, true).unwrap(), SortMode::Light);
    assert!(matches!(SortMode::from_cli(true, true), Err(WallbashError::ConflictingModes)));
    assert_eq!(SortMode::Light.name(), "light");
}
