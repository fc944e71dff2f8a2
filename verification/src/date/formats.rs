//! The built-in date format strategies.
//!
//! Three are token-driven: `basic_date_time`, `basic_date_time_no_millis`,
//! and the calendar-library style ISO form. The fourth, `epoch_millis`, reads
//! and writes raw signed milliseconds since the epoch and bypasses the token
//! engine. Each strategy's canonical round trip is proved below: formatting
//! what was parsed gives back every canonical string.

use vstd::prelude::*;

use crate::date::{
    date_of_epoch_millis, epoch_millis_of, lemma_epoch_millis_range, lemma_epoch_millis_unique,
    max_epoch_millis, min_epoch_millis, DateTime,
};
use crate::calendar::{days_before_year, days_before_year_x, lemma_days_before_year_bounds,
    lemma_days_before_year_mono};
use crate::date::format::{
    format_tokens, has_token, lemma_has_token_iff, lemma_parse_tokens_format,
    lemma_tokens_round_trip, parse_tokens, spec_parse_tokens, tokens_text, zero_missing,
    DateFormat, DateToken, ParseError,
};
use crate::json::{quoted, Decimal, Json};
use crate::text::{dec_int, decimal_value, is_decimal_int, format_i64, lemma_dec_int_value,
    parse_i64};

verus! {

/// The token sequence `yyyy-MM-dd'T'HH:mm:ssZ`.
pub open spec fn chrono_format_tokens() -> Seq<DateToken> {
    seq![
        DateToken::Year4,
        DateToken::Literal('-'),
        DateToken::Month2,
        DateToken::Literal('-'),
        DateToken::Day2,
        DateToken::Literal('T'),
        DateToken::Hour2,
        DateToken::Literal(':'),
        DateToken::Minute2,
        DateToken::Literal(':'),
        DateToken::Second2,
        DateToken::Literal('Z'),
    ]
}

/// The token sequence `yyyyMMdd'T'HHmmss.SSSZ`.
pub open spec fn basic_date_time_tokens() -> Seq<DateToken> {
    seq![
        DateToken::Year4,
        DateToken::Month2,
        DateToken::Day2,
        DateToken::Literal('T'),
        DateToken::Hour2,
        DateToken::Minute2,
        DateToken::Second2,
        DateToken::Literal('.'),
        DateToken::Millis3,
        DateToken::Literal('Z'),
    ]
}

/// The token sequence `yyyyMMdd'T'HHmmssZ`.
pub open spec fn basic_date_time_no_millis_tokens() -> Seq<DateToken> {
    seq![
        DateToken::Year4,
        DateToken::Month2,
        DateToken::Day2,
        DateToken::Literal('T'),
        DateToken::Hour2,
        DateToken::Minute2,
        DateToken::Second2,
        DateToken::Literal('Z'),
    ]
}

/// Format for a default calendar-library style date, `yyyy-MM-dd'T'HH:mm:ssZ`.
#[derive(PartialEq, Eq, Structural, Debug, Default, Clone, Copy)]
pub struct ChronoFormat;

impl ChronoFormat {
    /// The tokens this format renders.
    pub fn tokens() -> (r: Vec<DateToken>)
        ensures
            r@ == chrono_format_tokens(),
    {
        let mut v: Vec<DateToken> = Vec::new();
        v.push(DateToken::Year4);
        v.push(DateToken::Literal('-'));
        v.push(DateToken::Month2);
        v.push(DateToken::Literal('-'));
        v.push(DateToken::Day2);
        v.push(DateToken::Literal('T'));
        v.push(DateToken::Hour2);
        v.push(DateToken::Literal(':'));
        v.push(DateToken::Minute2);
        v.push(DateToken::Literal(':'));
        v.push(DateToken::Second2);
        v.push(DateToken::Literal('Z'));
        proof {
            assert(v@ =~= chrono_format_tokens());
        }
        v
    }
}

impl DateFormat for ChronoFormat {
    open spec fn spec_name() -> Seq<char> {
        "yyyy-MM-dd'T'HH:mm:ssZ"@
    }

    open spec fn spec_format(d: DateTime) -> Seq<char> {
        tokens_text(chrono_format_tokens(), d)
    }

    open spec fn spec_parse(s: Seq<char>) -> Option<DateTime> {
        spec_parse_tokens(chrono_format_tokens(), s)
    }

    fn name() -> (r: String) {
        String::from_str("yyyy-MM-dd'T'HH:mm:ssZ")
    }

    fn format(d: &DateTime) -> (r: String) {
        format_tokens(&Self::tokens(), d)
    }

    fn parse(s: &str) -> (r: Result<DateTime, ParseError>) {
        parse_tokens(&Self::tokens(), s)
    }

    open spec fn spec_wire(d: DateTime) -> Seq<char> {
        quoted(Self::spec_format(d))
    }

    fn to_wire(d: &DateTime) -> (r: Json) {
        Json::Str(Self::format(d))
    }
}

/// Format for `basic_date_time`, `yyyyMMdd'T'HHmmss.SSSZ`.
#[derive(PartialEq, Eq, Structural, Debug, Default, Clone, Copy)]
pub struct BasicDateTime;

impl BasicDateTime {
    /// The tokens this format renders.
    pub fn tokens() -> (r: Vec<DateToken>)
        ensures
            r@ == basic_date_time_tokens(),
    {
        let mut v: Vec<DateToken> = Vec::new();
        v.push(DateToken::Year4);
        v.push(DateToken::Month2);
        v.push(DateToken::Day2);
        v.push(DateToken::Literal('T'));
        v.push(DateToken::Hour2);
        v.push(DateToken::Minute2);
        v.push(DateToken::Second2);
        v.push(DateToken::Literal('.'));
        v.push(DateToken::Millis3);
        v.push(DateToken::Literal('Z'));
        proof {
            assert(v@ =~= basic_date_time_tokens());
        }
        v
    }
}

impl DateFormat for BasicDateTime {
    open spec fn spec_name() -> Seq<char> {
        "basic_date_time"@
    }

    open spec fn spec_format(d: DateTime) -> Seq<char> {
        tokens_text(basic_date_time_tokens(), d)
    }

    open spec fn spec_parse(s: Seq<char>) -> Option<DateTime> {
        spec_parse_tokens(basic_date_time_tokens(), s)
    }

    fn name() -> (r: String) {
        String::from_str("basic_date_time")
    }

    fn format(d: &DateTime) -> (r: String) {
        format_tokens(&Self::tokens(), d)
    }

    fn parse(s: &str) -> (r: Result<DateTime, ParseError>) {
        parse_tokens(&Self::tokens(), s)
    }

    open spec fn spec_wire(d: DateTime) -> Seq<char> {
        quoted(Self::spec_format(d))
    }

    fn to_wire(d: &DateTime) -> (r: Json) {
        Json::Str(Self::format(d))
    }
}

/// Format for `basic_date_time_no_millis`, `yyyyMMdd'T'HHmmssZ`.
#[derive(PartialEq, Eq, Structural, Debug, Default, Clone, Copy)]
pub struct BasicDateTimeNoMillis;

impl BasicDateTimeNoMillis {
    /// The tokens this format renders.
    pub fn tokens() -> (r: Vec<DateToken>)
        ensures
            r@ == basic_date_time_no_millis_tokens(),
    {
        let mut v: Vec<DateToken> = Vec::new();
        v.push(DateToken::Year4);
        v.push(DateToken::Month2);
        v.push(DateToken::Day2);
        v.push(DateToken::Literal('T'));
        v.push(DateToken::Hour2);
        v.push(DateToken::Minute2);
        v.push(DateToken::Second2);
        v.push(DateToken::Literal('Z'));
        proof {
            assert(v@ =~= basic_date_time_no_millis_tokens());
        }
        v
    }
}

impl DateFormat for BasicDateTimeNoMillis {
    open spec fn spec_name() -> Seq<char> {
        "basic_date_time_no_millis"@
    }

    open spec fn spec_format(d: DateTime) -> Seq<char> {
        tokens_text(basic_date_time_no_millis_tokens(), d)
    }

    open spec fn spec_parse(s: Seq<char>) -> Option<DateTime> {
        spec_parse_tokens(basic_date_time_no_millis_tokens(), s)
    }

    fn name() -> (r: String) {
        String::from_str("basic_date_time_no_millis")
    }

    fn format(d: &DateTime) -> (r: String) {
        format_tokens(&Self::tokens(), d)
    }

    fn parse(s: &str) -> (r: Result<DateTime, ParseError>) {
        parse_tokens(&Self::tokens(), s)
    }

    open spec fn spec_wire(d: DateTime) -> Seq<char> {
        quoted(Self::spec_format(d))
    }

    fn to_wire(d: &DateTime) -> (r: Json) {
        Json::Str(Self::format(d))
    }
}

/// Format for `epoch_millis`: signed milliseconds since the epoch, as a bare
/// decimal number. Negative timestamps floor toward the start of the day, so
/// `-500` is half a second before the epoch, not after it.
#[derive(PartialEq, Eq, Structural, Debug, Default, Clone, Copy)]
pub struct EpochMillis;

impl DateFormat for EpochMillis {
    open spec fn spec_name() -> Seq<char> {
        "epoch_millis"@
    }

    open spec fn spec_format(d: DateTime) -> Seq<char> {
        dec_int(epoch_millis_of(d))
    }

    open spec fn spec_parse(s: Seq<char>) -> Option<DateTime> {
        if is_decimal_int(s) && min_epoch_millis() <= decimal_value(s) <= max_epoch_millis() {
            Some(date_of_epoch_millis(decimal_value(s)))
        } else {
            None
        }
    }

    fn name() -> (r: String) {
        String::from_str("epoch_millis")
    }

    fn format(d: &DateTime) -> (r: String) {
        format_i64(d.to_epoch_millis())
    }

    fn parse(s: &str) -> (r: Result<DateTime, ParseError>) {
        proof {
            lemma_days_before_year_bounds(1970);
            lemma_days_before_year_bounds(10000);
            lemma_days_before_year_mono(1970, 10000);
        }
        let n = match parse_i64(s) {
            Some(n) => n,
            None => {
                return Err(ParseError::new(String::from_str("not a decimal timestamp")));
            },
        };
        let epoch = days_before_year_x(1970);
        let limit = days_before_year_x(10000);
        let min_ms: i64 = (0 - epoch) * 86400000;
        let max_ms: i64 = (limit - epoch) * 86400000 - 1;
        if n < min_ms || n > max_ms {
            return Err(ParseError::new(String::from_str("timestamp out of range")));
        }
        let d = DateTime::from_epoch_millis(n);
        proof {
            lemma_epoch_millis_unique(d, date_of_epoch_millis(n as int));
        }
        Ok(d)
    }

    open spec fn spec_wire(d: DateTime) -> Seq<char> {
        dec_int(epoch_millis_of(d))
    }

    fn to_wire(d: &DateTime) -> (r: Json) {
        let ms = d.to_epoch_millis();
        let r = Json::Num(Decimal::integer(ms));
        proof {
            assert(r.spec_text() == dec_int(ms as int));
        }
        r
    }
}

/// Canonical strings round-trip through `basic_date_time`: parsing one and
/// formatting the result gives the same string, and parsing recovers the
/// full date it was rendered from.
pub proof fn lemma_basic_date_time_round_trip(d: DateTime)
    requires
        d.valid(),
    ensures
        BasicDateTime::spec_parse(BasicDateTime::spec_format(d)) == Some(d),
        BasicDateTime::spec_format(
            BasicDateTime::spec_parse(BasicDateTime::spec_format(d)).unwrap(),
        ) == BasicDateTime::spec_format(d),
{
    let ts = basic_date_time_tokens();
    lemma_has_token_iff(ts, DateToken::Year4);
    lemma_has_token_iff(ts, DateToken::Month2);
    lemma_has_token_iff(ts, DateToken::Day2);
    lemma_has_token_iff(ts, DateToken::Hour2);
    lemma_has_token_iff(ts, DateToken::Minute2);
    lemma_has_token_iff(ts, DateToken::Second2);
    lemma_has_token_iff(ts, DateToken::Millis3);
    assert(ts[0] == DateToken::Year4);
    assert(ts[1] == DateToken::Month2);
    assert(ts[2] == DateToken::Day2);
    assert(ts[4] == DateToken::Hour2);
    assert(ts[5] == DateToken::Minute2);
    assert(ts[6] == DateToken::Second2);
    assert(ts[8] == DateToken::Millis3);
    lemma_parse_tokens_format(ts, d);
    assert(zero_missing(ts, d) == d);
}

/// Canonical strings round-trip through `basic_date_time_no_millis`: the
/// parse reads the date at second precision, and formatting it gives the
/// string back.
pub proof fn lemma_basic_date_time_no_millis_round_trip(d: DateTime)
    requires
        d.valid(),
    ensures
        BasicDateTimeNoMillis::spec_parse(BasicDateTimeNoMillis::spec_format(d)) is Some,
        BasicDateTimeNoMillis::spec_format(
            BasicDateTimeNoMillis::spec_parse(BasicDateTimeNoMillis::spec_format(d)).unwrap(),
        ) == BasicDateTimeNoMillis::spec_format(d),
{
    let ts = basic_date_time_no_millis_tokens();
    lemma_has_token_iff(ts, DateToken::Year4);
    lemma_has_token_iff(ts, DateToken::Month2);
    lemma_has_token_iff(ts, DateToken::Day2);
    assert(ts[0] == DateToken::Year4);
    assert(ts[1] == DateToken::Month2);
    assert(ts[2] == DateToken::Day2);
    lemma_tokens_round_trip(ts, d);
}

/// Canonical strings round-trip through the calendar-library style format,
/// which also reads at second precision.
pub proof fn lemma_chrono_format_round_trip(d: DateTime)
    requires
        d.valid(),
    ensures
        ChronoFormat::spec_parse(ChronoFormat::spec_format(d)) is Some,
        ChronoFormat::spec_format(ChronoFormat::spec_parse(ChronoFormat::spec_format(d)).unwrap())
            == ChronoFormat::spec_format(d),
{
    let ts = chrono_format_tokens();
    lemma_has_token_iff(ts, DateToken::Year4);
    lemma_has_token_iff(ts, DateToken::Month2);
    lemma_has_token_iff(ts, DateToken::Day2);
    assert(ts[0] == DateToken::Year4);
    assert(ts[2] == DateToken::Month2);
    assert(ts[4] == DateToken::Day2);
    lemma_tokens_round_trip(ts, d);
}

/// Canonical strings round-trip through `epoch_millis`: parsing a rendered
/// timestamp gives back exactly the date it came from.
pub proof fn lemma_epoch_millis_round_trip(d: DateTime)
    requires
        d.valid(),
    ensures
        EpochMillis::spec_parse(EpochMillis::spec_format(d)) == Some(d),
        EpochMillis::spec_format(EpochMillis::spec_parse(EpochMillis::spec_format(d)).unwrap())
            == EpochMillis::spec_format(d),
{
    let ms = epoch_millis_of(d);
    lemma_dec_int_value(ms);
    lemma_epoch_millis_range(d);
    lemma_epoch_millis_unique(d, date_of_epoch_millis(ms));
}

} // verus!
