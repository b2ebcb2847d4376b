use wallrust::config::{ColorProfile, SortMode, CURVE_DEFAULT};
use wallrust::curve::{orient_curve, parse_curve};
use wallrust::error::WallbashError;

#[test]
fn parses_two_points() {
    assert_eq!(parse_curve("10 20\n30 40").unwrap(), vec![(10, 20), (30, 40)]);
}

#[test]
fn rejects_value_out_of_range() {
    match parse_curve("10 20\n150 5") {
        Err(WallbashError::CurveValueOutOfRange(line)) => assert_eq!(line, "150 5"),
        other => panic!("unexpected {:?}", other),
    }
    assert!(matches!(parse_curve("10 101"), Err(WallbashError::CurveValueOutOfRange(_))));
    assert!(matches!(parse_curve("300 5"), Err(WallbashError::CurveValueOutOfRange(_))));
}

#[test]
fn rejects_line_with_one_token() {
    match parse_curve("10 20\n30\n40 50") {
        Err(WallbashError::CurveLineMalformed(line)) => assert_eq!(line, "30"),
        other => panic!("unexpected {:?}", other),
    }
    assert!(matches!(parse_curve("1 2 3"), Err(WallbashError::CurveLineMalformed(_))));
}

#[test]
fn rejects_non_numbers() {
    assert!(matches!(parse_curve("a 5"), Err(WallbashError::CurveValueInvalid(_))));
    assert!(matches!(parse_curve("-5 5"), Err(WallbashError::CurveValueInvalid(_))));
    assert!(matches!(parse_curve("+ 5"), Err(WallbashError::CurveValueInvalid(_))));
}

#[test]
fn first_wrong_line_decides_error() {
    assert!(matches!(parse_curve("1\n200 1"), Err(WallbashError::CurveLineMalformed(_))));
    assert!(matches!(parse_curve("200 1\n1"), Err(WallbashError::CurveValueOutOfRange(_))));
}

#[test]
fn skips_blank_lines_and_extra_space() {
    assert_eq!(parse_curve("\n  10   20 \n\n\t30 40\r\n").unwrap(), vec![(10, 20), (30, 40)]);
    assert_eq!(parse_curve("+5 007").unwrap(), vec![(5, 7)]);
    assert_eq!(parse_curve("").unwrap(), vec![]);
    assert_eq!(parse_curve("0 0\n100 100").unwrap(), vec![(0, 0), (100, 100)]);
}

#[test]
fn default_curve_has_nine_points() {
    let points = parse_curve(CURVE_DEFAULT).unwrap();
    assert_eq!(points.len(), 9);
    assert_eq!(points[0], (32, 50));
    assert_eq!(points[8], (100, 20));
    assert_eq!(parse_curve(&ColorProfile::Mono.to_curve_string()).unwrap().len(), 9);
}

#[test]
fn orient_sorts_by_brightness() {
    let curve = vec![(50, 1), (10, 2), (50, 3), (30, 4)];
    assert_eq!(orient_curve(&curve, SortMode::Dark), vec![(10, 2), (30, 4), (50, 1), (50, 3)]);
    assert_eq!(orient_curve(&curve, SortMode::Light), vec![(50, 3), (50, 1), (30, 4), (10, 2)]);
    assert_eq!(orient_curve(&vec![], SortMode::Light), vec![]);
}
