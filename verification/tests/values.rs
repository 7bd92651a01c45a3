use oneup::calendar::{today, CalendarDate};
use oneup::format::{FormatError, VersionFormat};

fn date(year: u32, month: u32, day: u32) -> CalendarDate {
    CalendarDate { year, month, day }
}

#[test]
fn versions_are_built_from_the_date() {
    let d = date(2026, 2, 5);
    let build = |format: &str, micro: u64| {
        VersionFormat::parse(format).unwrap().build_version_for(&d, micro)
    };
    assert_eq!(build("YY.MM", 0), "26.2.0");
    assert_eq!(build("YY.MM", 9), "26.2.0");
    assert_eq!(build("YY.MM.MICRO", 5), "26.2.5");
    assert_eq!(build("YYYY.MM.MICRO", 0), "2026.2.0");
    assert_eq!(build("YY.MM.DD", 0), "26.2.5");
    assert_eq!(build("YYYY.MM.DD.MICRO", 7), "2026.2.5.7");
    assert_eq!(build("YY", 0), "26.0.0");
    assert_eq!(build("YY.MICRO", 3), "26.3.0");
    assert_eq!(build("DD.MM.YYYY", 0), "5.2.2026");
    assert_eq!(build("YY.YYYY.MM.DD", 0), "26.2026.2.5");
    assert_eq!(build("YY.MM.MICRO", u64::MAX), "26.2.18446744073709551615");
}

#[test]
fn short_year_is_the_year_within_its_century() {
    let fmt = VersionFormat::parse("YY.MM").unwrap();
    assert_eq!(fmt.build_version_for(&date(2000, 1, 1), 0), "0.1.0");
    assert_eq!(fmt.build_version_for(&date(2099, 12, 31), 0), "99.12.0");
    assert_eq!(fmt.build_version_for(&date(2100, 12, 31), 0), "0.12.0");
    assert_eq!(fmt.values_for(&date(1999, 7, 4)), vec![99, 7]);
}

#[test]
fn built_versions_have_three_segments_or_more() {
    let d = date(2026, 11, 30);
    for format in ["YY", "MM", "DD", "YYYY", "YY.MM", "YY.MICRO", "YY.MM.MICRO", "YY.MM.DD", "YY.MM.DD.MICRO", "YYYY.YY.MM.DD.MICRO"] {
        let fmt = VersionFormat::parse(format).unwrap();
        let version = fmt.build_version_for(&d, 0);
        let segments: Vec<&str> = version.split('.').collect();
        assert_eq!(segments.len(), fmt.format_len().max(3));
        for segment in &segments[fmt.format_len()..] {
            assert_eq!(*segment, "0");
        }
        assert!(fmt.build_version(0).split('.').count() >= 3);
    }
}

#[test]
fn extraction_gives_back_what_was_built() {
    let d = date(2026, 2, 5);
    for format in ["YY", "YY.MM", "YY.MICRO", "YY.MM.MICRO", "YYYY.MM.DD.MICRO", "DD.MM.YYYY"] {
        let fmt = VersionFormat::parse(format).unwrap();
        for micro in [0u64, 1, 41, u64::MAX] {
            let version = fmt.build_version_for(&d, micro);
            let mut expected = fmt.values_for(&d);
            if let Some(i) = fmt.micro_index {
                expected[i] = micro;
            }
            assert_eq!(fmt.extract_values(&version), Some(expected));
        }
    }
}

#[test]
fn extraction_accepts_only_zero_padding() {
    let fmt = VersionFormat::parse("YY.MM.MICRO").unwrap();
    assert_eq!(fmt.extract_values("26.2.5.0.0"), Some(vec![26, 2, 5]));
    assert_eq!(fmt.extract_values("26.2.5.1"), None);
    assert_eq!(fmt.extract_values("26.2.5.00"), None);
    assert_eq!(fmt.extract_values("26.2.5."), None);
    assert_eq!(fmt.extract_values("26.2.5.abc"), None);
    assert_eq!(fmt.extract_values("+26.2.5"), Some(vec![26, 2, 5]));
    assert_eq!(fmt.extract_values("026.02.005"), Some(vec![26, 2, 5]));
    assert_eq!(fmt.extract_values("26.2.-5"), None);
    assert_eq!(fmt.extract_values(""), None);
    assert_eq!(fmt.extract_values("26.2.99999999999999999999"), None);
    assert_eq!(fmt.extract_values("26.12.0"), Some(vec![26, 12, 0]));
    assert_eq!(fmt.extract_values("0.1.0"), Some(vec![0, 1, 0]));
    let days = VersionFormat::parse("YY.MM.DD").unwrap();
    assert_eq!(days.extract_values("26.2.31"), Some(vec![26, 2, 31]));
    assert_eq!(days.extract_values("26.2.32"), None);
    let one = VersionFormat::parse("YY").unwrap();
    assert_eq!(one.extract_values("26.0.0"), Some(vec![26]));
    assert_eq!(one.extract_values("26"), Some(vec![26]));
    assert_eq!(one.extract_values("26.1.0"), None);
}

#[test]
fn counter_is_free_of_range_checks() {
    let fmt = VersionFormat::parse("MM.MICRO").unwrap();
    assert_eq!(fmt.extract_values("12.0"), Some(vec![12, 0]));
    assert_eq!(fmt.extract_values("12.13"), Some(vec![12, 13]));
    assert_eq!(fmt.extract_values("13.1"), None);
    assert_eq!(fmt.micro_value(&[12, 13]), Some(13));
}

#[test]
fn matching_leaves_the_counter_out() {
    let d = date(2026, 2, 5);
    let fmt = VersionFormat::parse("YY.MM.MICRO").unwrap();
    assert!(fmt.matches_date(&[26, 2, 999], &d));
    assert!(!fmt.matches_date(&[26, 3, 0], &d));
    assert!(!fmt.matches_date(&[27, 2, 0], &d));
    assert!(fmt.matches_date(&[26, 2], &d));
    assert!(fmt.matches_date(&[], &d));
    let plain = VersionFormat::parse("YYYY.MM.DD").unwrap();
    assert!(plain.matches_date(&[2026, 2, 5], &d));
    assert!(!plain.matches_date(&[2026, 2, 6], &d));
}

#[test]
fn ahead_goes_by_the_leftmost_difference() {
    let d = date(2026, 6, 15);
    let fmt = VersionFormat::parse("YY.MM.DD.MICRO").unwrap();
    assert!(fmt.ahead_of_date(&[27, 1, 1, 0], &d));
    assert!(fmt.ahead_of_date(&[26, 7, 1, 0], &d));
    assert!(fmt.ahead_of_date(&[26, 6, 16, 0], &d));
    assert!(!fmt.ahead_of_date(&[26, 6, 15, 0], &d));
    assert!(!fmt.ahead_of_date(&[26, 6, 15, 999], &d));
    assert!(!fmt.ahead_of_date(&[25, 12, 31, 0], &d));
    assert!(!fmt.ahead_of_date(&[26, 5, 31, 0], &d));
    assert!(!fmt.ahead_of_date(&[26, 6, 14, 999], &d));
    assert!(!fmt.ahead_of_date(&[], &d));
    assert!(fmt.ahead_of_date(&[27], &d));
    let reversed = VersionFormat::parse("DD.MM.YY").unwrap();
    assert!(reversed.ahead_of_date(&[16, 1, 20], &d));
    assert!(!reversed.ahead_of_date(&[14, 12, 99], &d));
}

#[test]
fn local_clock_gives_a_calendar_date() {
    let d = today();
    assert!(d.is_valid());
    assert!(d.year >= 2024);
    let fmt = VersionFormat::parse("YYYY.MM.DD").unwrap();
    let values = fmt.today_values();
    let again = today();
    assert!(values == fmt.values_for(&d) || values == fmt.values_for(&again));
    assert!(!date(2026, 0, 1).is_valid());
    assert!(!date(2026, 13, 1).is_valid());
    assert!(!date(2026, 1, 0).is_valid());
    assert!(!date(2026, 1, 32).is_valid());
    assert!(date(2026, 12, 31).is_valid());
}

#[test]
fn each_fault_of_a_format_is_named() {
    let fault = |text: &str| VersionFormat::parse(text).unwrap_err();
    assert!(matches!(fault("YY-MM"), FormatError::Separator));
    assert!(matches!(fault("YY_MM"), FormatError::Separator));
    assert!(matches!(fault("MICRO-"), FormatError::Separator));
    assert!(matches!(fault("YY.MM.PATCH"), FormatError::UnknownToken { token } if token == "PATCH"));
    assert!(matches!(fault(""), FormatError::UnknownToken { token } if token.is_empty()));
    assert!(matches!(fault("YY..MM"), FormatError::UnknownToken { token } if token.is_empty()));
    assert!(matches!(fault("yy.mm"), FormatError::UnknownToken { token } if token == "yy"));
    assert!(matches!(fault("YY.MICRO.MICRO"), FormatError::RepeatedMicro));
    assert!(matches!(fault("MICRO.MICRO"), FormatError::RepeatedMicro));
    assert!(matches!(fault("MICRO.YY.MM"), FormatError::MicroNotLast));
    assert!(matches!(fault("YY.MICRO.MM"), FormatError::MicroNotLast));
    assert!(matches!(fault("MICRO"), FormatError::NoDateToken));
    assert!(matches!(fault("YY.YY.MICRO"), FormatError::DuplicateDate));
    assert!(matches!(fault("MM.MM"), FormatError::DuplicateDate));
    assert!(matches!(fault("YY.MM.DD.MM"), FormatError::DuplicateDate));
}

#[test]
fn first_fault_of_a_format_wins() {
    let fault = |text: &str| VersionFormat::parse(text).unwrap_err();
    assert!(matches!(fault("YY-BAD.MICRO.MICRO"), FormatError::Separator));
    assert!(matches!(fault("MICRO.BAD.MICRO"), FormatError::UnknownToken { token } if token == "BAD"));
    assert!(matches!(fault("MICRO.MICRO.BAD"), FormatError::RepeatedMicro));
    assert!(matches!(fault("MICRO.YY.YY"), FormatError::MicroNotLast));
    assert!(matches!(fault("YY.YY.MICRO.DD"), FormatError::MicroNotLast));
}

#[test]
fn faults_are_described() {
    let message = |text: &str| VersionFormat::parse(text).unwrap_err().message(text);
    assert_eq!(message("YY-MM"), "invalid format 'YY-MM': only dot (.) separator is allowed");
    assert_eq!(message("YY.PATCH"), "invalid format 'YY.PATCH': unknown token 'PATCH'");
    assert_eq!(message("YY.MICRO.MICRO"), "invalid format 'YY.MICRO.MICRO': MICRO can only appear once");
    assert_eq!(message("MICRO.YY"), "invalid format 'MICRO.YY': MICRO must be the last component");
    assert_eq!(message("MICRO"), "invalid format 'MICRO': must have at least one date token");
    assert_eq!(message("MM.MM"), "invalid format 'MM.MM': duplicate date token");
}

#[test]
fn formats_of_every_length_parse() {
    let fmt = VersionFormat::parse("YYYY.YY.MM.DD.MICRO").unwrap();
    assert_eq!(fmt.format_len(), 5);
    assert_eq!(fmt.micro_index, Some(4));
    let fmt = VersionFormat::parse("DD").unwrap();
    assert_eq!(fmt.format_len(), 1);
    assert!(!fmt.has_micro());
}
