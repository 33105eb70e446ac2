use chrono::{DateTime, Utc};
use stepfn_core::decimal::{whole_of_decimal, WHOLE_LIMIT};
use stepfn_core::error::TranslateError;
use stepfn_core::json::{Json, JsonNumber};
use stepfn_core::calendar::normalize_text;
use stepfn_core::timestamp::{
    float_to_date_string, formatted_or_error, normalize_seconds, seconds_of,
    MAX_SECONDS, MIN_SECONDS, YEAR_0000_START, YEAR_9999_END,
};

fn member(text: &str, key: &str) -> Json {
    let tree = Json::from_text(text).unwrap();
    tree.get(key).unwrap().duplicate()
}

#[test]
fn int_float_to_date_string_works() {
    let as_string = r#"{"time":1699612567.763}"#;

    let time = float_to_date_string(&member(as_string, "time")).unwrap();
    assert_eq!(
        time,
        format!(
            "{}",
            DateTime::from_timestamp(1699612567, 0)
                .unwrap()
                .format("%Y-%m-%d %H:%M")
        )
    );
}

#[test]
fn number_and_text_of_one_instant_agree() {
    let from_number = float_to_date_string(&member(r#"{"t":1699612567.763}"#, "t")).unwrap();
    let from_text =
        float_to_date_string(&Json::Text("2023-11-10T10:36:07.763000+00:00".to_string())).unwrap();
    let with_offset =
        float_to_date_string(&Json::Text("2023-11-10T11:36:07.763000+01:00".to_string())).unwrap();
    assert_eq!(from_number, "2023-11-10 10:36");
    assert_eq!(from_text, "2023-11-10 10:36");
    assert_eq!(with_offset, "2023-11-10 10:36");
}

#[test]
fn whole_numbers_are_taken_as_seconds() {
    assert_eq!(
        float_to_date_string(&Json::Number(JsonNumber::Unsigned(0))),
        Ok("1970-01-01 00:00".to_string())
    );
    assert_eq!(
        float_to_date_string(&Json::Number(JsonNumber::Unsigned(59))),
        Ok("1970-01-01 00:00".to_string())
    );
    assert_eq!(
        float_to_date_string(&Json::Number(JsonNumber::Unsigned(60))),
        Ok("1970-01-01 00:01".to_string())
    );
    assert_eq!(
        float_to_date_string(&Json::Number(JsonNumber::Negative(-1))),
        Ok("1969-12-31 23:59".to_string())
    );
}

#[test]
fn seconds_below_the_minute_are_cut_off_not_rounded() {
    assert_eq!(normalize_seconds(1699612619), Ok("2023-11-10 10:36".to_string()));
    assert_eq!(normalize_seconds(1699612620), Ok("2023-11-10 10:37".to_string()));
    assert_eq!(
        float_to_date_string(&Json::Number(JsonNumber::Real("1699612619.999".to_string()))),
        Ok("2023-11-10 10:36".to_string())
    );
}

#[test]
fn a_fraction_below_zero_is_cut_towards_zero() {
    assert_eq!(
        float_to_date_string(&Json::Number(JsonNumber::Real("-0.5".to_string()))),
        Ok("1970-01-01 00:00".to_string())
    );
    assert_eq!(
        float_to_date_string(&Json::Number(JsonNumber::Real("-60.5".to_string()))),
        Ok("1969-12-31 23:59".to_string())
    );
}

#[test]
fn the_range_is_the_one_of_chrono() {
    assert_eq!(DateTime::<Utc>::MIN_UTC.timestamp(), MIN_SECONDS);
    assert_eq!(DateTime::<Utc>::MAX_UTC.timestamp(), MAX_SECONDS);
    assert!(DateTime::from_timestamp(MIN_SECONDS, 0).is_some());
    assert!(DateTime::from_timestamp(MIN_SECONDS - 1, 0).is_none());
    assert!(DateTime::from_timestamp(MAX_SECONDS, 0).is_some());
    assert!(DateTime::from_timestamp(MAX_SECONDS + 1, 0).is_none());
}

#[test]
fn seconds_at_the_ends_of_the_range() {
    assert_eq!(normalize_seconds(MIN_SECONDS), Ok("-262143-01-01 00:00".to_string()));
    assert_eq!(normalize_seconds(MAX_SECONDS), Ok("+262142-12-31 23:59".to_string()));
    assert_eq!(normalize_seconds(MIN_SECONDS - 1), Err(TranslateError::FormatError));
    assert_eq!(normalize_seconds(MAX_SECONDS + 1), Err(TranslateError::FormatError));
    assert_eq!(normalize_seconds(i64::MAX), Err(TranslateError::FormatError));
    assert_eq!(normalize_seconds(i64::MIN), Err(TranslateError::FormatError));
}

#[test]
fn numbers_out_of_range_are_format_errors() {
    assert_eq!(
        float_to_date_string(&Json::Number(JsonNumber::Unsigned(u64::MAX))),
        Err(TranslateError::FormatError)
    );
    assert_eq!(
        float_to_date_string(&Json::Number(JsonNumber::Negative(i64::MIN))),
        Err(TranslateError::FormatError)
    );
    assert_eq!(
        float_to_date_string(&Json::Number(JsonNumber::Real("1e300".to_string()))),
        Err(TranslateError::FormatError)
    );
    assert_eq!(
        float_to_date_string(&member(r#"{"t":1e300}"#, "t")),
        Err(TranslateError::FormatError)
    );
}

#[test]
fn what_is_neither_number_nor_text_is_a_format_error() {
    assert_eq!(float_to_date_string(&Json::Null), Err(TranslateError::FormatError));
    assert_eq!(float_to_date_string(&Json::Bool(true)), Err(TranslateError::FormatError));
    assert_eq!(float_to_date_string(&Json::Array(vec![])), Err(TranslateError::FormatError));
    assert_eq!(float_to_date_string(&Json::Object(vec![])), Err(TranslateError::FormatError));
}

#[test]
fn seconds_of_numbers() {
    assert_eq!(seconds_of(&JsonNumber::Unsigned(5)), Some(5));
    assert_eq!(seconds_of(&JsonNumber::Unsigned(MAX_SECONDS as u64)), Some(MAX_SECONDS));
    assert_eq!(seconds_of(&JsonNumber::Unsigned(MAX_SECONDS as u64 + 1)), None);
    assert_eq!(seconds_of(&JsonNumber::Negative(MIN_SECONDS)), Some(MIN_SECONDS));
    assert_eq!(seconds_of(&JsonNumber::Negative(MIN_SECONDS - 1)), None);
    assert_eq!(seconds_of(&JsonNumber::Real("8210266876799.9".to_string())), Some(MAX_SECONDS));
    assert_eq!(seconds_of(&JsonNumber::Real("8210266876800.0".to_string())), None);
    assert_eq!(seconds_of(&JsonNumber::Real("x".to_string())), None);
}

#[test]
fn formatted_or_error_passes_the_text_on() {
    assert_eq!(formatted_or_error(Some("a".to_string())), Ok("a".to_string()));
    assert_eq!(formatted_or_error(None), Err(TranslateError::FormatError));
}

#[test]
fn formatted_text_is_cut_to_the_minute() {
    assert_eq!(normalize_text("2023-11-10T09:16:07"), Ok("2023-11-10 09:16".to_string()));
    assert_eq!(normalize_text("2023-11-10 09:16"), Ok("2023-11-10 09:16".to_string()));
    assert_eq!(normalize_text("2023-11-10T09:16"), Ok("2023-11-10 09:16".to_string()));
    assert_eq!(normalize_text("2023-11-10T09:16:59.999999"), Ok("2023-11-10 09:16".to_string()));
    assert_eq!(normalize_text("2023-11-10T09:16:07Z"), Ok("2023-11-10 09:16".to_string()));
    assert_eq!(normalize_text("2023-11-10T09:16Z"), Ok("2023-11-10 09:16".to_string()));
    assert_eq!(
        normalize_text("2023-11-10T09:16:07.763000+00:00"),
        Ok("2023-11-10 09:16".to_string())
    );
    assert_eq!(normalize_text("2023-11-10T09:16:07-0000"), Ok("2023-11-10 09:16".to_string()));
    assert_eq!(normalize_text("0000-01-01T00:00"), Ok("0000-01-01 00:00".to_string()));
    assert_eq!(normalize_text("9999-12-31 23:59:60"), Ok("9999-12-31 23:59".to_string()));
}

#[test]
fn an_offset_from_utc_is_applied() {
    assert_eq!(
        normalize_text("2023-11-10T09:16:07.763000+01:00"),
        Ok("2023-11-10 08:16".to_string())
    );
    assert_eq!(normalize_text("2023-11-10T09:16:07-05:30"), Ok("2023-11-10 14:46".to_string()));
    assert_eq!(normalize_text("2023-11-10T09:16+0100"), Ok("2023-11-10 08:16".to_string()));
    assert_eq!(normalize_text("2023-11-10T00:16+00:17"), Ok("2023-11-09 23:59".to_string()));
    assert_eq!(normalize_text("2023-11-10T23:59-00:01"), Ok("2023-11-11 00:00".to_string()));
    assert_eq!(normalize_text("2023-11-10T23:59-23:59"), Ok("2023-11-11 23:58".to_string()));
    assert_eq!(normalize_text("2023-11-10T00:00+23:59"), Ok("2023-11-09 00:01".to_string()));
}

#[test]
fn an_offset_may_move_the_date_into_another_month_or_year() {
    assert_eq!(normalize_text("2023-03-01T00:30+01:00"), Ok("2023-02-28 23:30".to_string()));
    assert_eq!(normalize_text("2024-03-01T00:30+01:00"), Ok("2024-02-29 23:30".to_string()));
    assert_eq!(normalize_text("2000-03-01T00:30+01:00"), Ok("2000-02-29 23:30".to_string()));
    assert_eq!(normalize_text("1900-03-01T00:30+01:00"), Ok("1900-02-28 23:30".to_string()));
    assert_eq!(normalize_text("2023-05-01T00:30+01:00"), Ok("2023-04-30 23:30".to_string()));
    assert_eq!(normalize_text("2023-01-01T00:30+01:00"), Ok("2022-12-31 23:30".to_string()));
    assert_eq!(normalize_text("2023-02-28T23:30-01:00"), Ok("2023-03-01 00:30".to_string()));
    assert_eq!(normalize_text("2024-02-28T23:30-01:00"), Ok("2024-02-29 00:30".to_string()));
    assert_eq!(normalize_text("2023-04-30T23:30-01:00"), Ok("2023-05-01 00:30".to_string()));
    assert_eq!(normalize_text("2023-12-31T23:30-01:00"), Ok("2024-01-01 00:30".to_string()));
    assert_eq!(normalize_text("0000-01-01T00:30+01:00"), Err(TranslateError::FormatError));
    assert_eq!(normalize_text("9999-12-31T23:30-01:00"), Err(TranslateError::FormatError));
}

#[test]
fn the_offset_agrees_with_chrono() {
    for text in [
        "2023-11-10T09:16:07.763+01:00",
        "2024-03-01T00:30:00+05:45",
        "1999-12-31T23:59:59-11:00",
        "2023-01-01T00:00:00+14:00",
        "2016-02-29T12:00:00Z",
    ] {
        let parsed = DateTime::parse_from_rfc3339(text).unwrap();
        let expected = format!("{}", parsed.with_timezone(&Utc).format("%Y-%m-%d %H:%M"));
        assert_eq!(normalize_text(text), Ok(expected), "{}", text);
    }
}

#[test]
fn text_of_another_shape_is_a_format_error() {
    for text in [
        "",
        "2023-11-10",
        "2023-11-10T09:1",
        "2023/11/10 09:16",
        "2023-11-10_09:16",
        "2023-11-10T09-16",
        "2023-13-10T09:16",
        "2023-00-10T09:16",
        "2023-11-00T09:16",
        "2023-11-31T09:16",
        "2023-02-29T09:16",
        "1900-02-29T09:16",
        "2023-11-10T24:16",
        "2023-11-10T09:60",
        "20a3-11-10T09:16",
        "yesterday at noon",
        "２０２３-11-10T09:16",
        "2023-11-10T09:16:",
        "2023-11-10T09:16:7",
        "2023-11-10T09:16:61",
        "2023-11-10T09:16:07.",
        "2023-11-10T09:16:07.5x",
        "2023-11-10T09:16.5",
        "2023-11-10T09:16:07 UTC",
        "2023-11-10T09:16:07z",
        "2023-11-10T09:16:07ZZ",
        "2023-11-10T09:16:07+1",
        "2023-11-10T09:16:07+01",
        "2023-11-10T09:16:07+24:00",
        "2023-11-10T09:16:07+01:60",
        "2023-11-10T09:16:07+01:00:00",
        "2023-11-10T09:16:07+01.00",
        "2023-11-10 09:16 ",
    ] {
        assert_eq!(normalize_text(text), Err(TranslateError::FormatError), "{}", text);
    }
}

#[test]
fn whole_part_of_decimal_text() {
    assert_eq!(whole_of_decimal("1699612567.763"), Some(1699612567));
    assert_eq!(whole_of_decimal("0"), Some(0));
    assert_eq!(whole_of_decimal("-0"), Some(0));
    assert_eq!(whole_of_decimal("12"), Some(12));
    assert_eq!(whole_of_decimal("-12.99"), Some(-12));
    assert_eq!(whole_of_decimal("0.999"), Some(0));
    assert_eq!(whole_of_decimal("007.5"), Some(7));
}

#[test]
fn whole_part_with_an_exponent() {
    assert_eq!(whole_of_decimal("1.5e3"), Some(1500));
    assert_eq!(whole_of_decimal("1.5E3"), Some(1500));
    assert_eq!(whole_of_decimal("1.5e+3"), Some(1500));
    assert_eq!(whole_of_decimal("1.2345e2"), Some(123));
    assert_eq!(whole_of_decimal("12345e-2"), Some(123));
    assert_eq!(whole_of_decimal("12345e-5"), Some(0));
    assert_eq!(whole_of_decimal("12345e-999"), Some(0));
    assert_eq!(whole_of_decimal("1e-7"), Some(0));
    assert_eq!(whole_of_decimal("-1.5e1"), Some(-15));
    assert_eq!(whole_of_decimal("12e1"), Some(120));
    assert_eq!(whole_of_decimal("0e999"), Some(0));
    assert_eq!(whole_of_decimal("0.0001e4"), Some(1));
}

#[test]
fn whole_part_at_the_limit() {
    assert_eq!(WHOLE_LIMIT, 1_000_000_000_000_000);
    assert_eq!(whole_of_decimal("999999999999999"), Some(999_999_999_999_999));
    assert_eq!(whole_of_decimal("-999999999999999.9"), Some(-999_999_999_999_999));
    assert_eq!(whole_of_decimal("1000000000000000"), None);
    assert_eq!(whole_of_decimal("-1000000000000000"), None);
    assert_eq!(whole_of_decimal("1e15"), None);
    assert_eq!(whole_of_decimal("9.99999999999999e14"), Some(999_999_999_999_999));
    assert_eq!(whole_of_decimal("1e999"), None);
    assert_eq!(whole_of_decimal("99999999999999999999999999999999999999"), None);
}

#[test]
fn text_that_is_no_number_has_no_whole_part() {
    for text in [
        "", "-", ".", "1.", ".5", "-.5", "1e", "1e+", "1e-", "e5", "1e1234", "1.5.2", "1 ", " 1",
        "+1", "1x", "abc", "1e5x", "--1", "1e--1", "١٢",
    ] {
        assert_eq!(whole_of_decimal(text), None, "{:?}", text);
    }
}

#[test]
fn years_of_four_digits_give_the_canonical_form() {
    assert_eq!(normalize_seconds(YEAR_0000_START), Ok("0000-01-01 00:00".to_string()));
    assert_eq!(normalize_seconds(YEAR_0000_START - 1), Ok("-0001-12-31 23:59".to_string()));
    assert_eq!(normalize_seconds(YEAR_9999_END), Ok("9999-12-31 23:59".to_string()));
    assert_eq!(normalize_seconds(YEAR_9999_END + 1), Ok("+10000-01-01 00:00".to_string()));
}

#[test]
fn the_canonical_form_is_its_own_canonical_form() {
    for secs in [YEAR_0000_START, -1, 0, 1699612567, 951782400, 4102444799, YEAR_9999_END] {
        let canonical = normalize_seconds(secs).unwrap();
        assert_eq!(canonical.len(), 16);
        assert_eq!(normalize_text(&canonical), Ok(canonical.clone()), "{}", secs);
    }
    assert_eq!(normalize_seconds(951782400), Ok("2000-02-29 00:00".to_string()));
}
