use chrono::Datelike;
use oneup::format::{Component, VersionFormat};

// --- Parsing ---

#[test]
fn parse_yy_mm_micro() {
    let fmt = VersionFormat::parse("YY.MM.MICRO").unwrap();
    assert_eq!(
        fmt.components,
        vec![Component::Yy, Component::Mm, Component::Micro]
    );
    assert_eq!(fmt.micro_index, Some(2));
    assert!(fmt.has_micro());
}

#[test]
fn parse_yyyy_mm_micro() {
    let fmt = VersionFormat::parse("YYYY.MM.MICRO").unwrap();
    assert_eq!(
        fmt.components,
        vec![Component::Yyyy, Component::Mm, Component::Micro]
    );
    assert_eq!(fmt.micro_index, Some(2));
}

#[test]
fn parse_yy_mm_dd_micro() {
    let fmt = VersionFormat::parse("YY.MM.DD.MICRO").unwrap();
    assert_eq!(
        fmt.components,
        vec![
            Component::Yy,
            Component::Mm,
            Component::Dd,
            Component::Micro
        ]
    );
    assert_eq!(fmt.micro_index, Some(3));
}

#[test]
fn parse_yy_mm_no_micro() {
    let fmt = VersionFormat::parse("YY.MM").unwrap();
    assert_eq!(fmt.components, vec![Component::Yy, Component::Mm]);
    assert_eq!(fmt.micro_index, None);
    assert!(!fmt.has_micro());
}

#[test]
fn parse_yy_mm_dd_no_micro() {
    let fmt = VersionFormat::parse("YY.MM.DD").unwrap();
    assert_eq!(
        fmt.components,
        vec![Component::Yy, Component::Mm, Component::Dd]
    );
    assert!(!fmt.has_micro());
}

#[test]
fn parse_error_dash_separator() {
    assert!(VersionFormat::parse("YY-MM").is_err());
}

#[test]
fn parse_error_underscore_separator() {
    assert!(VersionFormat::parse("YY_MM").is_err());
}

#[test]
fn parse_error_unknown_token() {
    assert!(VersionFormat::parse("YY.MM.PATCH").is_err());
}

#[test]
fn parse_error_micro_not_last() {
    assert!(VersionFormat::parse("MICRO.YY.MM").is_err());
    assert!(VersionFormat::parse("YY.MICRO.MM").is_err());
}

#[test]
fn parse_error_duplicate_date() {
    assert!(VersionFormat::parse("YY.YY.MICRO").is_err());
    assert!(VersionFormat::parse("MM.MM").is_err());
}

#[test]
fn parse_error_micro_only() {
    assert!(VersionFormat::parse("MICRO").is_err());
}

#[test]
fn parse_error_duplicate_micro() {
    assert!(VersionFormat::parse("YY.MICRO.MICRO").is_err());
}

// --- build_version ---

#[test]
fn build_version_pads_to_three() {
    let fmt = VersionFormat::parse("YY.MM").unwrap();
    let v = fmt.build_version(0);
    assert_eq!(v.split('.').count(), 3);
    assert!(v.ends_with(".0"));
}

#[test]
fn build_version_with_micro() {
    let fmt = VersionFormat::parse("YY.MM.MICRO").unwrap();
    let v = fmt.build_version(5);
    let parts: Vec<&str> = v.split('.').collect();
    assert_eq!(parts.len(), 3);
    assert_eq!(parts[2], "5");
}

#[test]
fn build_version_four_components_no_padding() {
    let fmt = VersionFormat::parse("YY.MM.DD.MICRO").unwrap();
    let v = fmt.build_version(0);
    assert_eq!(v.split('.').count(), 4);
}

// --- extract_values ---

#[test]
fn extract_values_matching_format() {
    let fmt = VersionFormat::parse("YY.MM.MICRO").unwrap();
    let vals = fmt.extract_values("26.2.5").unwrap();
    assert_eq!(vals, vec![26, 2, 5]);
}

#[test]
fn extract_values_with_padding() {
    let fmt = VersionFormat::parse("YY.MM").unwrap();
    let vals = fmt.extract_values("26.2.0").unwrap();
    assert_eq!(vals, vec![26, 2]);
}

#[test]
fn extract_values_rejects_nonzero_padding() {
    let fmt = VersionFormat::parse("YY.MM").unwrap();
    assert!(fmt.extract_values("26.2.5").is_none());
}

#[test]
fn extract_values_too_few_parts() {
    let fmt = VersionFormat::parse("YY.MM.MICRO").unwrap();
    assert!(fmt.extract_values("26.2").is_none());
}

#[test]
fn extract_values_invalid_month() {
    let fmt = VersionFormat::parse("YY.MM.MICRO").unwrap();
    assert!(fmt.extract_values("26.0.5").is_none()); // month 0
    assert!(fmt.extract_values("26.13.5").is_none()); // month 13
}

#[test]
fn extract_values_invalid_day() {
    let fmt = VersionFormat::parse("YY.MM.DD.MICRO").unwrap();
    assert!(fmt.extract_values("26.2.0.5").is_none()); // day 0
    assert!(fmt.extract_values("26.2.32.5").is_none()); // day 32
}

#[test]
fn extract_values_non_numeric() {
    let fmt = VersionFormat::parse("YY.MM.MICRO").unwrap();
    assert!(fmt.extract_values("26.abc.5").is_none());
}

// --- matches_today / ahead_of_today ---

#[test]
fn matches_today_with_micro() {
    let fmt = VersionFormat::parse("YY.MM.MICRO").unwrap();
    let now = chrono::Local::now();
    let yy = (now.year() % 100) as u64;
    let mm = now.month() as u64;

    assert!(fmt.matches_today(&[yy, mm, 999])); // micro doesn't matter
    assert!(!fmt.matches_today(&[yy, mm + 1, 0])); // wrong month
    assert!(!fmt.matches_today(&[yy + 1, mm, 0])); // wrong year
}

#[test]
fn matches_today_without_micro() {
    let fmt = VersionFormat::parse("YY.MM").unwrap();
    let now = chrono::Local::now();
    let yy = (now.year() % 100) as u64;
    let mm = now.month() as u64;

    assert!(fmt.matches_today(&[yy, mm]));
    assert!(!fmt.matches_today(&[yy, mm + 1]));
}

#[test]
fn ahead_of_today_future_year() {
    let fmt = VersionFormat::parse("YY.MM.MICRO").unwrap();
    let now = chrono::Local::now();
    let yy = (now.year() % 100) as u64;
    let mm = now.month() as u64;

    assert!(fmt.ahead_of_today(&[yy + 1, 1, 0]));
    assert!(!fmt.ahead_of_today(&[yy, mm, 0])); // same = not ahead
    assert!(!fmt.ahead_of_today(&[yy - 1, mm, 0])); // past
}

#[test]
fn ahead_of_today_future_month() {
    let fmt = VersionFormat::parse("YY.MM.MICRO").unwrap();
    let now = chrono::Local::now();
    let yy = (now.year() % 100) as u64;
    let mm = now.month() as u64;

    if mm < 12 {
        assert!(fmt.ahead_of_today(&[yy, mm + 1, 0]));
    }
    if mm > 1 {
        assert!(!fmt.ahead_of_today(&[yy, mm - 1, 0]));
    }
}

// --- micro_value ---

#[test]
fn micro_value_present() {
    let fmt = VersionFormat::parse("YY.MM.MICRO").unwrap();
    assert_eq!(fmt.micro_value(&[26, 2, 7]), Some(7));
}

#[test]
fn micro_value_absent() {
    let fmt = VersionFormat::parse("YY.MM").unwrap();
    assert_eq!(fmt.micro_value(&[26, 2]), None);
}
