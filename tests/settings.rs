use wallrust::cli::{after_extraction, calculate_hash, candidate_colors, AppPaths, Cli, Extraction};
use wallrust::config::{ColorProfile, SortMode};
use wallrust::error::WallbashError;

fn cli() -> Cli {
    Cli {
        input_image: None,
        force: false,
        output_dir: None,
        vibrant: false,
        pastel: true,
        mono: false,
        custom: None,
        dark: false,
        light: true,
        colors: 4,
        fuzz: 70,
        detect_hyprland: false,
        html: false,
        wallset: false,
        no_templates: false,
    }
}

#[test]
fn settings_from_flags() {
    let c = cli();
    assert_eq!(c.color_profile().unwrap(), ColorProfile::Pastel);
    assert_eq!(c.sort_mode().unwrap(), SortMode::Light);
    let mut c = cli();
    c.dark = true;
    assert!(matches!(c.sort_mode(), Err(WallbashError::ConflictingModes)));
}

#[test]
fn extraction_retries_once_with_two_more() {
    assert!(matches!(after_extraction(4, 4, false), Extraction::Accept));
    assert!(matches!(after_extraction(4, 6, true), Extraction::Accept));
    assert!(matches!(after_extraction(4, 3, false), Extraction::Retry(6)));
    match after_extraction(4, 3, true) {
        Extraction::Fail(WallbashError::NotEnoughColors { required, found }) => {
            assert_eq!((required, found), (4, 3));
        }
        other => panic!("unexpected {:?}", other),
    }
}

#[test]
fn candidates_are_first_colors() {
    let h = vec![(9, "AAAAAA".to_string()), (5, "BBBBBB".to_string()), (1, "CCCCCC".to_string())];
    assert_eq!(candidate_colors(&h, 2), vec!["AAAAAA".to_string(), "BBBBBB".to_string()]);
    assert_eq!(candidate_colors(&h, 5).len(), 3);
}

#[test]
fn path_hash_is_sha256_of_path() {
    assert_eq!(
        calculate_hash("abc"),
        "ba7816bf8f01cfea414140de5dae2223b00361a396177a9cb410ff61f20015ad"
    );
}

#[test]
fn app_paths_below_dirs() {
    let p = AppPaths::new("/home/u/.config/wallrust", "/home/u/.cache/wallrust/", "/out".to_string());
    assert_eq!(p.template_dir, "/home/u/.config/wallrust/templates");
    assert_eq!(p.thumbs_dir, "/home/u/.cache/wallrust/thumbs");
    assert_eq!(p.dcols_dir, "/home/u/.cache/wallrust/dcols");
    assert_eq!(p.mpc_cache_file, "/home/u/.cache/wallrust/wallbash.mpc");
    assert_eq!(p.wallbash_cache_file, "/home/u/.cache/wallrust/wallbash_cache.json");
    assert_eq!(p.output_dir, "/out");
    assert_eq!(AppPaths::app_dir(Some("/cfg".to_string()), "/h", ".config/wallrust"), "/cfg/wallrust");
    assert_eq!(AppPaths::app_dir(None, "/h", ".config/wallrust"), "/h/.config/wallrust");
}
