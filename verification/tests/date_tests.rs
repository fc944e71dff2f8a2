//! Date values, format strategies, and their round trips.

use elastic::date::format::{DateFormat, DateToken};
use elastic::date::format::{format_tokens, parse_tokens};
use elastic::date::formats::{BasicDateTime, BasicDateTimeNoMillis, ChronoFormat, EpochMillis};
use elastic::date::{Date, DateTime};

use chrono::{Datelike, Timelike};

fn date_from_chrono(value: chrono::NaiveDateTime) -> DateTime {
    DateTime::build(
        value.year() as u16,
        value.month() as u8,
        value.day() as u8,
        value.hour() as u8,
        value.minute() as u8,
        value.second() as u8,
        0,
    )
}

#[test]
fn dates_should_use_chrono_format() {
    let _dt =
        chrono::NaiveDateTime::parse_from_str("13/05/2015 00:00:00", "%d/%m/%Y %H:%M:%S").unwrap();
    let expected = _dt.format("%Y/%m/%d %H:%M:%S").to_string();

    let tokens = vec![
        DateToken::Year4,
        DateToken::Literal('/'),
        DateToken::Month2,
        DateToken::Literal('/'),
        DateToken::Day2,
        DateToken::Literal(' '),
        DateToken::Hour2,
        DateToken::Literal(':'),
        DateToken::Minute2,
        DateToken::Literal(':'),
        DateToken::Second2,
    ];
    let actual = format_tokens(&tokens, &date_from_chrono(_dt));

    assert_eq!(expected, actual);
}

#[test]
fn dates_should_use_es_format() {
    let _dt =
        chrono::NaiveDateTime::parse_from_str("13/05/2015 00:00:00", "%d/%m/%Y %H:%M:%S").unwrap();
    let expected = "20150513".to_string();

    let tokens = vec![DateToken::Year4, DateToken::Month2, DateToken::Day2];
    let actual = format_tokens(&tokens, &date_from_chrono(_dt));

    assert_eq!(expected, actual);
}

#[test]
fn can_change_date_mapping() {
    fn takes_epoch_millis(_: Date<EpochMillis>) -> bool {
        true
    }

    let date: Date<BasicDateTime> = Date::build(2015, 5, 13, 0, 0, 0, 0);

    assert!(takes_epoch_millis(date.remap()));
}

#[test]
fn can_build_date_from_chrono() {
    let _dt =
        chrono::NaiveDateTime::parse_from_str("13/05/2015 00:00:00", "%d/%m/%Y %H:%M:%S").unwrap();
    let date: Date<BasicDateTime> = Date::new(date_from_chrono(_dt));

    assert_eq!(
        (2015, 5, 13, 0, 0, 0),
        (
            date.year() as i32,
            date.month() as i32,
            date.day() as i32,
            date.hour() as i32,
            date.minute() as i32,
            date.second() as i32
        )
    );
}

#[test]
fn can_build_date_from_prim() {
    let date: Date<BasicDateTime> = Date::build(2015, 5, 13, 0, 0, 0, 0);

    assert_eq!(
        (2015, 5, 13, 0, 0, 0),
        (
            date.year() as i32,
            date.month() as i32,
            date.day() as i32,
            date.hour() as i32,
            date.minute() as i32,
            date.second() as i32
        )
    );
}

#[test]
fn serialise_elastic_date() {
    let _dt =
        chrono::NaiveDateTime::parse_from_str("13/05/2015 00:00:00", "%d/%m/%Y %H:%M:%S").unwrap();
    let date = Date::<BasicDateTime>::new(date_from_chrono(_dt));

    let ser = date.to_wire().to_json_string();

    assert_eq!(r#""20150513T000000.000Z""#, ser);
}

#[test]
fn deserialise_elastic_date() {
    let date: Date<BasicDateTime> = Date::parse("20150513T000000.000Z").unwrap();

    assert_eq!(
        (2015, 5, 13),
        (date.year() as i32, date.month() as i32, date.day() as i32)
    );
}

#[test]
fn serialise_elastic_date_brw() {
    let _dt =
        chrono::NaiveDateTime::parse_from_str("13/05/2015 00:00:00", "%d/%m/%Y %H:%M:%S").unwrap();
    let chrono_date = date_from_chrono(_dt);

    let ser = BasicDateTime::to_wire(&chrono_date).to_json_string();

    assert_eq!(r#""20150513T000000.000Z""#, ser);
}

#[test]
fn format_names_match_the_store() {
    assert_eq!("basic_date_time", BasicDateTime::name());
    assert_eq!("basic_date_time_no_millis", BasicDateTimeNoMillis::name());
    assert_eq!("epoch_millis", EpochMillis::name());
    assert_eq!("yyyy-MM-dd'T'HH:mm:ssZ", ChronoFormat::name());
}

#[test]
fn basic_date_time_round_trips() {
    let text = "20150513T204530.123Z";
    let date = BasicDateTime::parse(text).unwrap();
    assert_eq!(text, BasicDateTime::format(&date));
}

#[test]
fn basic_date_time_no_millis_round_trips() {
    let text = "20150513T204530Z";
    let date = BasicDateTimeNoMillis::parse(text).unwrap();
    assert_eq!(text, BasicDateTimeNoMillis::format(&date));
    assert_eq!(0, date.millisecond);
}

#[test]
fn chrono_format_round_trips() {
    let text = "2015-05-13T20:45:30Z";
    let date = ChronoFormat::parse(text).unwrap();
    assert_eq!(text, ChronoFormat::format(&date));
}

#[test]
fn date_only_tokens_read_as_midnight() {
    let tokens = vec![DateToken::Year4, DateToken::Month2, DateToken::Day2];
    let date = parse_tokens(&tokens, "20150513").unwrap();
    assert_eq!((2015, 5, 13, 0, 0, 0, 0), (
        date.year as i32,
        date.month as i32,
        date.day as i32,
        date.hour as i32,
        date.minute as i32,
        date.second as i32,
        date.millisecond as i32,
    ));
}

#[test]
fn malformed_dates_are_rejected() {
    assert!(BasicDateTime::parse("20151340T000000.000Z").is_err());
    assert!(BasicDateTime::parse("20150532T000000.000Z").is_err());
    assert!(BasicDateTime::parse("20150513T240000.000Z").is_err());
    assert!(BasicDateTime::parse("20150513T000000.000").is_err());
    assert!(BasicDateTime::parse("2015-05-13T00:00:00Z").is_err());
    assert!(BasicDateTime::parse("2015051aT000000.000Z").is_err());
}

#[test]
fn leap_days_follow_the_calendar() {
    assert!(BasicDateTime::parse("20160229T000000.000Z").is_ok());
    assert!(BasicDateTime::parse("20150229T000000.000Z").is_err());
    assert!(BasicDateTime::parse("21000229T000000.000Z").is_err());
    assert!(BasicDateTime::parse("20000229T000000.000Z").is_ok());
}

#[test]
fn epoch_millis_negative_floors_toward_the_epoch() {
    let date: Date<EpochMillis> = Date::parse("-500").unwrap();
    let v = date.value;
    assert_eq!(
        (1969, 12, 31, 23, 59, 59, 500),
        (
            v.year as i32,
            v.month as i32,
            v.day as i32,
            v.hour as i32,
            v.minute as i32,
            v.second as i32,
            v.millisecond as i32
        )
    );
    assert_eq!("-500", date.format());
}

#[test]
fn epoch_millis_zero_is_the_epoch() {
    let date = EpochMillis::parse("0").unwrap();
    assert_eq!((1970, 1, 1, 0, 0, 0, 0), (
        date.year as i32,
        date.month as i32,
        date.day as i32,
        date.hour as i32,
        date.minute as i32,
        date.second as i32,
        date.millisecond as i32,
    ));
    assert_eq!("0", EpochMillis::format(&date));
}

#[test]
fn epoch_millis_whole_negative_seconds() {
    let date = EpochMillis::parse("-1000").unwrap();
    assert_eq!((1969, 12, 31, 23, 59, 59, 0), (
        date.year as i32,
        date.month as i32,
        date.day as i32,
        date.hour as i32,
        date.minute as i32,
        date.second as i32,
        date.millisecond as i32,
    ));
    assert_eq!("-1000", EpochMillis::format(&date));
}

#[test]
fn epoch_millis_round_trips() {
    let text = "1426351513778";
    let date = EpochMillis::parse(text).unwrap();
    assert_eq!(text, EpochMillis::format(&date));
}

#[test]
fn epoch_millis_rejects_garbage_and_out_of_range() {
    assert!(EpochMillis::parse("").is_err());
    assert!(EpochMillis::parse("abc").is_err());
    assert!(EpochMillis::parse("12a").is_err());
    assert!(EpochMillis::parse("-").is_err());
    assert!(EpochMillis::parse("999999999999999999").is_err());
    assert!(EpochMillis::parse("99999999999999999999999").is_err());
}

#[test]
fn epoch_millis_serialises_as_a_bare_number() {
    let date: Date<EpochMillis> = Date::build(2015, 3, 14, 16, 45, 13, 778);
    assert_eq!("1426351513778", date.to_wire().to_json_string());
}
