use smm_zerop::dates::{parse_gsheets_date, parse_mdy_datetime, parse_offset_datetime, Date};
use smm_zerop::numbers::{i64_to_string, parse_i64, parse_thousands_i64, u64_to_string};
use smm_zerop::requests::{parse_filter_params, parse_opt_i64, parse_opt_style, FilterParamError};
use smm_zerop::settings::{LogFormat, LogLevel};
use smm_zerop::smm2_level::{effective_filters, FilterParams, Style, Tag, Theme};
use smm_zerop::taxonomy::ClearConditionGroup;

#[test]
fn thousands_separated_integers_parse() {
    assert_eq!(parse_thousands_i64("1,234,567"), Some(1234567));
    assert_eq!(parse_thousands_i64(" 12 "), Some(12));
    assert_eq!(parse_thousands_i64("0"), Some(0));
    assert_eq!(parse_thousands_i64("-5"), Some(-5));
    assert_eq!(parse_thousands_i64("12x"), None);
    assert_eq!(parse_thousands_i64(""), None);
    assert_eq!(parse_thousands_i64(","), None);
}

#[test]
fn plain_integers_parse_with_range_checks() {
    assert_eq!(parse_i64("9223372036854775807"), Some(i64::MAX));
    assert_eq!(parse_i64("9223372036854775808"), None);
    assert_eq!(parse_i64("-9223372036854775808"), Some(i64::MIN));
    assert_eq!(parse_i64("-9223372036854775809"), None);
    assert_eq!(parse_i64("+42"), Some(42));
    assert_eq!(parse_i64("4 2"), None);
}

#[test]
fn integers_render_in_decimal() {
    assert_eq!(u64_to_string(0), "0");
    assert_eq!(u64_to_string(90501), "90501");
    assert_eq!(i64_to_string(-42), "-42");
    assert_eq!(i64_to_string(7), "7");
    assert_eq!(i64_to_string(i64::MIN), "-9223372036854775808");
}

#[test]
fn gsheets_dates_parse_against_the_fixed_format() {
    assert_eq!(
        parse_gsheets_date("January 2, 2023"),
        Some(Date { year: 2023, month: 1, day: 2 })
    );
    assert_eq!(
        parse_gsheets_date("December 31, 2019"),
        Some(Date { year: 2019, month: 12, day: 31 })
    );
    assert_eq!(
        parse_gsheets_date("January 02, 2023"),
        Some(Date { year: 2023, month: 1, day: 2 })
    );
    assert_eq!(parse_gsheets_date("February 30, 2023"), None);
    assert_eq!(parse_gsheets_date("Feb 2, 2023"), None);
    assert_eq!(parse_gsheets_date("January 2 2023"), None);
    assert_eq!(parse_gsheets_date(""), None);
    assert_eq!(
        parse_gsheets_date("February 29, 2024"),
        Some(Date { year: 2024, month: 2, day: 29 })
    );
    assert_eq!(parse_gsheets_date("February 29, 2023"), None);
}

#[test]
fn legacy_datetimes_parse_on_a_twelve_hour_clock() {
    let dt = parse_mdy_datetime("1/2/2023 11:59:07 PM").unwrap();
    assert_eq!(dt.date, Date { year: 2023, month: 1, day: 2 });
    assert_eq!((dt.hour, dt.minute, dt.second), (23, 59, 7));

    let noon = parse_mdy_datetime("1/2/2023 12:00:00 PM").unwrap();
    assert_eq!(noon.hour, 12);
    let midnight = parse_mdy_datetime("1/2/2023 12:00:00 AM").unwrap();
    assert_eq!(midnight.hour, 0);

    assert_eq!(parse_mdy_datetime("13/2/2023 11:59:07 PM"), None);
    assert_eq!(parse_mdy_datetime("1/2/2023 13:00:00 PM"), None);
    assert_eq!(parse_mdy_datetime("1/2/2023 11:59:07"), None);
}

#[test]
fn offset_correction_shifts_back_six_hours() {
    let dt = parse_offset_datetime("1/2/2023 11:59:07 PM").unwrap();
    assert_eq!(dt.date, Date { year: 2023, month: 1, day: 2 });
    assert_eq!(dt.hour, 17);

    let rolled = parse_offset_datetime("1/1/2023 03:00:00 AM").unwrap();
    assert_eq!(rolled.date, Date { year: 2022, month: 12, day: 31 });
    assert_eq!(rolled.hour, 21);

    let leap = parse_offset_datetime("3/1/2024 01:00:00 AM").unwrap();
    assert_eq!(leap.date, Date { year: 2024, month: 2, day: 29 });
    assert_eq!(leap.hour, 19);
}

#[test]
fn optional_filter_fields_parse_or_reject() {
    assert_eq!(parse_opt_i64(""), Ok(None));
    assert_eq!(parse_opt_i64("12"), Ok(Some(12)));
    assert_eq!(parse_opt_i64("abc"), Err(FilterParamError::BadNumber));
    assert_eq!(parse_opt_style(""), Ok(None));
    assert_eq!(parse_opt_style("smb3"), Ok(Some(Style::SMB3)));
    assert_eq!(parse_opt_style("SMB3"), Err(FilterParamError::BadChoice));
}

#[test]
fn filter_params_parse_as_a_set() {
    let p = parse_filter_params(
        "2023", "", "50", "", "", "", "", "collecting", "smw", "ghost_house", "speedrun",
    )
    .unwrap();
    assert_eq!(p.year, Some(2023));
    assert_eq!(p.min_attempts, None);
    assert_eq!(p.max_attempts, Some(50));
    assert_eq!(p.clear_condition_group, Some(ClearConditionGroup::Collecting));
    assert_eq!(p.style, Some(Style::SMW));
    assert_eq!(p.theme, Some(Theme::GhostHouse));
    assert_eq!(p.tag, Some(Tag::Speedrun));

    assert!(parse_filter_params("x", "", "", "", "", "", "", "", "", "", "").is_err());
    assert!(parse_filter_params("1", "", "", "", "", "", "", "bogus", "", "", "").is_err());
}

#[test]
fn the_year_parameter_is_special_cased() {
    let base = FilterParams {
        year: None,
        min_attempts: None,
        max_attempts: None,
        min_footprints: None,
        max_footprints: None,
        min_clearcheck_ms: None,
        max_clearcheck_ms: None,
        clear_condition_group: None,
        style: None,
        theme: None,
        tag: None,
    };
    assert_eq!(effective_filters(&base).year, Some(2023));
    assert_eq!(effective_filters(&FilterParams { year: Some(-1), ..base }).year, None);
    assert_eq!(effective_filters(&FilterParams { year: Some(2019), ..base }).year, Some(2019));
}

#[test]
fn log_settings_parse_from_their_command_line_forms() {
    assert_eq!(LogFormat::from_param("text-color"), Some(LogFormat::TextColor));
    assert_eq!(LogFormat::from_param("json"), Some(LogFormat::Json));
    assert_eq!(LogFormat::from_param("colorful"), None);
    assert_eq!(LogLevel::from_param("warn"), Some(LogLevel::Warn));
    assert_eq!(LogLevel::from_param("WARN"), None);
}
