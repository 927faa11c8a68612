use chrono::{DateTime, NaiveDate, Utc};
use openvpn_management::number::{check_float, parse_i64};
use openvpn_management::text::{to_chars, to_text};
use openvpn_management::time::{MAX_UTC_SECONDS, MIN_UTC_SECONDS};
use openvpn_management::{
    checked_utc_start_time, get_utc_start_time, FloatError, FloatLiteral, IntError,
};

fn integer(text: &str) -> Result<i64, IntError> {
    parse_i64(&to_chars(text))
}

#[test]
fn test_integers_are_read_in_base_ten() {
    assert_eq!(Ok(0), integer("0"));
    assert_eq!(Ok(0), integer("-0"));
    assert_eq!(Ok(7), integer("+7"));
    assert_eq!(Ok(42), integer("0042"));
    assert_eq!(Ok(1546277714), integer("1546277714"));
    assert_eq!(Ok(-1546277714), integer("-1546277714"));
    assert_eq!(Ok(i64::MAX), integer("9223372036854775807"));
    assert_eq!(Ok(i64::MIN), integer("-9223372036854775808"));
    assert_eq!(Ok(i64::MAX), integer("+0000000000000000000009223372036854775807"));
}

#[test]
fn test_integer_failures() {
    assert_eq!(Err(IntError::Empty), integer(""));
    assert_eq!(Err(IntError::InvalidDigit), integer("+"));
    assert_eq!(Err(IntError::InvalidDigit), integer("-"));
    assert_eq!(Err(IntError::InvalidDigit), integer("--1"));
    assert_eq!(Err(IntError::InvalidDigit), integer("1 "));
    assert_eq!(Err(IntError::InvalidDigit), integer("1.0"));
    assert_eq!(Err(IntError::InvalidDigit), integer("1e3"));
    assert_eq!(Err(IntError::InvalidDigit), integer("\u{0661}"));
    assert_eq!(Err(IntError::InvalidDigit), integer("NAN_DATE_TIME"));
    assert_eq!(Err(IntError::PosOverflow), integer("9223372036854775808"));
    assert_eq!(Err(IntError::NegOverflow), integer("-9223372036854775809"));
    assert_eq!(Err(IntError::PosOverflow), integer("99999999999999999999999999999999999999999999"));
    assert_eq!(Err(IntError::NegOverflow), integer("-99999999999999999999999999999999999999999999"));
}

#[test]
fn test_integers_agree_with_std() {
    let texts = [
        "", "0", "-0", "+0", "12", "-12", "+12", "1-2", "12-", " 12", "12\r", "0x1f", "1_000",
        "9223372036854775807", "9223372036854775808", "-9223372036854775808",
        "-9223372036854775809", "000000000000000000000000000001", "+-1", "-+1", "\u{ff11}",
    ];
    for text in texts {
        assert_eq!(text.parse::<i64>().ok(), integer(text).ok(), "{:?}", text);
    }
}

#[test]
fn test_float_literals_by_the_grammar() {
    let accepted = [
        "0", "100", "100.0", "100.", ".5", "-.5", "+1.25", "1e5", "1E5", "1e+5", "1e-5", "1.e5",
        ".5e-3", "007", "inf", "-inf", "+inf", "INF", "Infinity", "-iNfInItY", "nan", "NaN",
        "-nan", "+NAN", "123456789012345678901234567890", "1e999999",
    ];
    for text in accepted {
        assert_eq!(Ok(()), check_float(&to_chars(text)), "{:?}", text);
        assert_eq!(text, FloatLiteral::parse(text).unwrap().as_str());
    }
    let refused = [
        ".", "+", "-", "e5", ".e5", "1e", "1e+", "1e5.0", "1.2.3", "1 ", " 1", "1\r", "1,5",
        "0x10", "1_000", "infinit", "infinityy", "in", "na", "nanx", "NAN_STRING", "1f", "--1",
        "+-1", "1e--5", "1ee5", "\u{0661}", "1\u{212a}",
    ];
    for text in refused {
        assert_eq!(Err(FloatError::Invalid), check_float(&to_chars(text)), "{:?}", text);
        assert_eq!(Some(FloatError::Invalid), FloatLiteral::parse(text).err());
    }
    assert_eq!(Err(FloatError::Empty), check_float(&to_chars("")));
    assert_eq!(Some(FloatError::Empty), FloatLiteral::parse("").err());
}

#[test]
fn test_float_literals_agree_with_std() {
    let texts = [
        "", "0", "-0", "100", "100.0", "100.", ".5", ".", "+", "-", "+.", "-.5", "e", "e5",
        "1e", "1e5", "1E5", "1e+5", "1e-5", "1e+", "1.e5", ".e5", ".5e5", "1.5e", "1e5e5",
        "1.2.3", "1 ", " 1", "1\n", "1\r", "1,5", "0x10", "1_000", "inf", "INF", "Inf", "-inf",
        "+inf", "infinity", "INFINITY", "-Infinity", "infinit", "infinityy", "in", "nan", "NaN",
        "NAN", "-nan", "+nan", "na", "nanx", "NAN_STRING", "1f", "1d", "--1", "+-1", "1e--5",
        "1e5.5", "١", "1e١", "00", "-00.00e-00", "+1", "1+", "1-", "१२", "i", "n", ".0", "0.",
    ];
    for text in texts {
        assert_eq!(
            text.parse::<f64>().is_ok(),
            FloatLiteral::parse(text).is_ok(),
            "{:?}",
            text
        );
    }
}

#[test]
fn test_float_literal_keeps_its_text() {
    let literal = FloatLiteral::parse("1.50e+2").unwrap();
    assert_eq!("1.50e+2", literal.as_str());
    assert_eq!(150.0, literal.as_str().parse::<f64>().unwrap());
    assert_eq!(literal, literal.clone());
    assert_ne!(literal, FloatLiteral::parse("150").unwrap());
    let chars = to_chars("-Infinity");
    assert_eq!("-Infinity", FloatLiteral::from_chars(&chars).unwrap().as_str());
}

#[test]
fn test_text_keeps_every_character() {
    let text = "a\tb\r\n\u{e9}\u{1f600}z";
    let chars = to_chars(text);
    assert_eq!(vec!['a', '\t', 'b', '\r', '\n', '\u{e9}', '\u{1f600}', 'z'], chars);
    assert_eq!(text, to_text(&chars));
    assert_eq!("", to_text(&to_chars("")));
}

#[test]
fn test_start_time_counts_seconds_from_the_epoch() {
    let epoch = NaiveDate::from_ymd_opt(1970, 1, 1).unwrap().and_hms_opt(0, 0, 0).unwrap();
    assert_eq!(epoch, get_utc_start_time(0));
    assert_eq!(
        NaiveDate::from_ymd_opt(2015, 5, 15).unwrap().and_hms_opt(0, 0, 0).unwrap(),
        get_utc_start_time(1431648000)
    );
    assert_eq!(
        NaiveDate::from_ymd_opt(1969, 12, 31).unwrap().and_hms_opt(23, 59, 59).unwrap(),
        get_utc_start_time(-1)
    );
    assert_eq!(1546277714, get_utc_start_time(1546277714).and_utc().timestamp());
    assert_eq!(0, get_utc_start_time(1546277714).and_utc().timestamp_subsec_nanos());
    assert_eq!(Some(get_utc_start_time(5)), checked_utc_start_time(5));
}

#[test]
fn test_start_time_range_is_that_of_chrono() {
    assert_eq!(DateTime::<Utc>::MIN_UTC.timestamp(), MIN_UTC_SECONDS);
    assert_eq!(DateTime::<Utc>::MAX_UTC.timestamp(), MAX_UTC_SECONDS);
    assert_eq!(
        Some(DateTime::<Utc>::MIN_UTC.naive_utc()),
        checked_utc_start_time(MIN_UTC_SECONDS)
    );
    assert_eq!(None, checked_utc_start_time(MIN_UTC_SECONDS - 1));
    assert_eq!(
        Some(NaiveDate::from_ymd_opt(262142, 12, 31).unwrap().and_hms_opt(23, 59, 59).unwrap()),
        checked_utc_start_time(MAX_UTC_SECONDS)
    );
    assert_eq!(None, checked_utc_start_time(MAX_UTC_SECONDS + 1));
    assert_eq!(None, checked_utc_start_time(i64::MAX));
    assert_eq!(None, checked_utc_start_time(i64::MIN));
    for secs in [MIN_UTC_SECONDS, -86_401, -1, 0, 1, 86_399, 1 << 40, MAX_UTC_SECONDS] {
        assert_eq!(
            DateTime::from_timestamp(secs, 0).map(|t| t.naive_utc()),
            checked_utc_start_time(secs)
        );
    }
}
