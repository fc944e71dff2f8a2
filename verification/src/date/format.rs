//! The date format strategy interface and its token-driven engine.
//!
//! A format is described by a sequence of tokens: fixed-width zero-padded
//! calendar components and literal characters. The engine formats a date by
//! rendering each token in turn, and parses by consuming each token's width,
//! collecting components, and validating the result. Formats that do not fit
//! the token shape (such as raw epoch milliseconds) implement the strategy
//! trait directly instead.

use vstd::prelude::*;

use crate::calendar::{days_in_month, month_days};
use crate::date::DateTime;
use crate::json::Json;
use crate::text::{
    all_digits, dec2, dec3, dec4, digits_value, lemma_dec2_value, lemma_dec3_value,
    lemma_dec4_value, pow10, push_char, push_pad2, push_pad3, push_pad4, read_fixed,
};

verus! {

/// A parse/format strategy for dates, together with the canonical name the
/// document store uses for it in a `format` mapping option.
pub trait DateFormat {
    /// The schema-facing name of the format.
    spec fn spec_name() -> Seq<char>;

    /// The exact text this strategy produces for a date.
    spec fn spec_format(d: DateTime) -> Seq<char>;

    /// The date this strategy reads from a text, if the text is well-formed.
    spec fn spec_parse(s: Seq<char>) -> Option<DateTime>;

    /// The schema-facing name of the format.
    fn name() -> (r: String)
        ensures
            r@ == Self::spec_name(),
    ;

    /// Formats a date as text.
    fn format(d: &DateTime) -> (r: String)
        requires
            d.valid(),
        ensures
            r@ == Self::spec_format(*d),
    ;

    /// Parses a date from text.
    fn parse(s: &str) -> (r: Result<DateTime, ParseError>)
        ensures
            match r {
                Ok(d) => Self::spec_parse(s@) == Some(d) && d.valid(),
                Err(_) => Self::spec_parse(s@) is None,
            },
    ;

    /// The JSON wire text a date serializes to under this format.
    spec fn spec_wire(d: DateTime) -> Seq<char>;

    /// Serializes a date in the format's wire shape, the same shape the
    /// format's schema declaration announces.
    fn to_wire(d: &DateTime) -> (r: Json)
        requires
            d.valid(),
        ensures
            r.wf(),
            r.spec_text() == Self::spec_wire(*d),
    ;
}

/// An error from parsing a date text that does not match its format.
#[derive(Debug, Clone)]
pub struct ParseError {
    message: String,
}

impl ParseError {
    /// The description this error carries.
    pub closed spec fn spec_message(&self) -> Seq<char> {
        self.message@
    }

    /// Wraps a free-form description of what failed to parse.
    pub fn new(message: String) -> (r: ParseError)
        ensures
            r.spec_message() == message@,
    {
        ParseError { message }
    }

    /// A human-readable description of the failure.
    pub fn message(&self) -> (r: &str)
        ensures
            r@ == self.spec_message(),
    {
        self.message.as_str()
    }
}

/// One element of a token-described date format: a fixed-width zero-padded
/// calendar component, or a literal character.
#[derive(Clone, Copy, PartialEq, Eq, Structural, Debug)]
pub enum DateToken {
    /// The year, four digits.
    Year4,
    /// The month, two digits.
    Month2,
    /// The day of the month, two digits.
    Day2,
    /// The hour, two digits.
    Hour2,
    /// The minute, two digits.
    Minute2,
    /// The second, two digits.
    Second2,
    /// The milliseconds, three digits.
    Millis3,
    /// A literal character, such as a separator.
    Literal(char),
}

/// The number of characters a token occupies.
pub open spec fn token_width(t: DateToken) -> int {
    match t {
        DateToken::Year4 => 4,
        DateToken::Millis3 => 3,
        DateToken::Literal(_) => 1,
        _ => 2,
    }
}

/// The text a token renders to for a date.
pub open spec fn token_text(t: DateToken, d: DateTime) -> Seq<char> {
    match t {
        DateToken::Year4 => dec4(d.year as int),
        DateToken::Month2 => dec2(d.month as int),
        DateToken::Day2 => dec2(d.day as int),
        DateToken::Hour2 => dec2(d.hour as int),
        DateToken::Minute2 => dec2(d.minute as int),
        DateToken::Second2 => dec2(d.second as int),
        DateToken::Millis3 => dec3(d.millisecond as int),
        DateToken::Literal(c) => seq![c],
    }
}

/// The text a whole token sequence renders to for a date.
pub open spec fn tokens_text(ts: Seq<DateToken>, d: DateTime) -> Seq<char>
    decreases ts.len(),
{
    if ts.len() == 0 {
        Seq::<char>::empty()
    } else {
        token_text(ts[0], d) + tokens_text(ts.skip(1), d)
    }
}

/// Whether a piece of text has the shape one token requires: its digits for
/// a component, or exactly the literal character.
pub open spec fn token_matches(t: DateToken, piece: Seq<char>) -> bool {
    match t {
        DateToken::Literal(c) => piece =~= seq![c],
        _ => all_digits(piece),
    }
}

/// Whether a text has exactly the shape a token sequence requires.
pub open spec fn tokens_match(ts: Seq<DateToken>, s: Seq<char>) -> bool
    decreases ts.len(),
{
    if ts.len() == 0 {
        s.len() == 0
    } else {
        let w = token_width(ts[0]);
        &&& s.len() >= w
        &&& token_matches(ts[0], s.take(w))
        &&& tokens_match(ts.skip(1), s.skip(w))
    }
}

/// The value the first occurrence of a component token reads from a text.
pub open spec fn find_value(ts: Seq<DateToken>, s: Seq<char>, t: DateToken) -> Option<int>
    decreases ts.len(),
{
    if ts.len() == 0 {
        None
    } else if ts[0] == t {
        Some(digits_value(s.take(token_width(t))))
    } else {
        find_value(ts.skip(1), s.skip(token_width(ts[0])), t)
    }
}

/// A component value, or zero where the format carries no such component.
pub open spec fn found_or_zero(v: Option<int>) -> int {
    match v {
        Some(x) => x,
        None => 0,
    }
}

/// The date a token sequence reads from a text: each component is the first
/// occurrence of its token, and components the format does not carry are
/// zero, so a date-only format reads as midnight.
pub open spec fn tokens_date(ts: Seq<DateToken>, s: Seq<char>) -> DateTime {
    DateTime {
        year: found_or_zero(find_value(ts, s, DateToken::Year4)) as u16,
        month: found_or_zero(find_value(ts, s, DateToken::Month2)) as u8,
        day: found_or_zero(find_value(ts, s, DateToken::Day2)) as u8,
        hour: found_or_zero(find_value(ts, s, DateToken::Hour2)) as u8,
        minute: found_or_zero(find_value(ts, s, DateToken::Minute2)) as u8,
        second: found_or_zero(find_value(ts, s, DateToken::Second2)) as u8,
        millisecond: found_or_zero(find_value(ts, s, DateToken::Millis3)) as u16,
    }
}

/// What parsing a text against a token sequence yields: the text must have
/// the format's exact shape, must spell out a full calendar date, and every
/// component must be within its calendar range.
pub open spec fn spec_parse_tokens(ts: Seq<DateToken>, s: Seq<char>) -> Option<DateTime> {
    if {
        &&& tokens_match(ts, s)
        &&& find_value(ts, s, DateToken::Year4) is Some
        &&& find_value(ts, s, DateToken::Month2) is Some
        &&& find_value(ts, s, DateToken::Day2) is Some
        &&& tokens_date(ts, s).valid()
    } {
        Some(tokens_date(ts, s))
    } else {
        None
    }
}

/// Whether a token sequence carries a given token.
pub open spec fn has_token(ts: Seq<DateToken>, t: DateToken) -> bool
    decreases ts.len(),
{
    if ts.len() == 0 {
        false
    } else if ts[0] == t {
        true
    } else {
        has_token(ts.skip(1), t)
    }
}

/// A sequence carries a token exactly when some position holds it.
pub proof fn lemma_has_token_iff(ts: Seq<DateToken>, t: DateToken)
    ensures
        has_token(ts, t) <==> exists|i: int| 0 <= i < ts.len() && ts[i] == t,
    decreases ts.len(),
{
    if ts.len() == 0 {
    } else if ts[0] == t {
        assert(ts[0] == t);
    } else {
        lemma_has_token_iff(ts.skip(1), t);
        if has_token(ts, t) {
            let j = choose|j: int| 0 <= j < ts.skip(1).len() && ts.skip(1)[j] == t;
            assert(ts[j + 1] == t);
        }
        if exists|i: int| 0 <= i < ts.len() && ts[i] == t {
            let i = choose|i: int| 0 <= i < ts.len() && ts[i] == t;
            assert(ts.skip(1)[i - 1] == t);
        }
    }
}

/// The date component a token renders, as a plain number.
pub open spec fn comp_field(t: DateToken, d: DateTime) -> int {
    match t {
        DateToken::Year4 => d.year as int,
        DateToken::Month2 => d.month as int,
        DateToken::Day2 => d.day as int,
        DateToken::Hour2 => d.hour as int,
        DateToken::Minute2 => d.minute as int,
        DateToken::Second2 => d.second as int,
        DateToken::Millis3 => d.millisecond as int,
        DateToken::Literal(_) => 0,
    }
}

/// The text a token renders has the token's width, its shape, and (for a
/// component token) reads back as the component's value.
proof fn lemma_token_text_reads_back(t: DateToken, d: DateTime)
    requires
        d.valid(),
    ensures
        token_text(t, d).len() == token_width(t),
        token_matches(t, token_text(t, d)),
        !(t is Literal) ==> digits_value(token_text(t, d)) == comp_field(t, d),
{
    match t {
        DateToken::Year4 => lemma_dec4_value(d.year as int),
        DateToken::Month2 => lemma_dec2_value(d.month as int),
        DateToken::Day2 => lemma_dec2_value(d.day as int),
        DateToken::Hour2 => lemma_dec2_value(d.hour as int),
        DateToken::Minute2 => lemma_dec2_value(d.minute as int),
        DateToken::Second2 => lemma_dec2_value(d.second as int),
        DateToken::Millis3 => lemma_dec3_value(d.millisecond as int),
        DateToken::Literal(c) => {
            assert(token_text(t, d) =~= seq![c]);
        },
    }
    assert(1 <= d.month <= 12 && 1 <= d.day <= 31) by {
        assert(days_in_month(d.year as int, d.month as int) <= 31);
    }
}

/// A formatted date has exactly the shape its own token sequence requires.
pub proof fn lemma_tokens_match_format(ts: Seq<DateToken>, d: DateTime)
    requires
        d.valid(),
    ensures
        tokens_match(ts, tokens_text(ts, d)),
        tokens_text(ts, d).len() >= 0,
    decreases ts.len(),
{
    if ts.len() > 0 {
        let t = ts[0];
        let head = token_text(t, d);
        let rest = tokens_text(ts.skip(1), d);
        let s = tokens_text(ts, d);
        lemma_token_text_reads_back(t, d);
        lemma_tokens_match_format(ts.skip(1), d);
        assert(s == head + rest);
        assert(s.take(token_width(t)) =~= head);
        assert(s.skip(token_width(t)) =~= rest);
    }
}

/// Reading a component back out of a formatted date gives the component the
/// date was formatted from, wherever the format carries that component.
pub proof fn lemma_find_value_format(ts: Seq<DateToken>, d: DateTime, t: DateToken)
    requires
        d.valid(),
        !(t is Literal),
    ensures
        find_value(ts, tokens_text(ts, d), t) == if has_token(ts, t) {
            Some(comp_field(t, d))
        } else {
            None::<int>
        },
    decreases ts.len(),
{
    if ts.len() > 0 {
        let t0 = ts[0];
        let head = token_text(t0, d);
        let rest = tokens_text(ts.skip(1), d);
        let s = tokens_text(ts, d);
        lemma_token_text_reads_back(t0, d);
        assert(s == head + rest);
        if t0 == t {
            assert(s.take(token_width(t)) =~= head);
        } else {
            lemma_find_value_format(ts.skip(1), d, t);
            assert(s.skip(token_width(t0)) =~= rest);
        }
    }
}

/// Dates that agree on every component a format carries render identically
/// under it.
pub proof fn lemma_tokens_text_agrees(ts: Seq<DateToken>, d1: DateTime, d2: DateTime)
    requires
        forall|t: DateToken| has_token(ts, t) ==> comp_field(t, d1) == comp_field(t, d2),
    ensures
        tokens_text(ts, d1) == tokens_text(ts, d2),
    decreases ts.len(),
{
    if ts.len() > 0 {
        assert(has_token(ts, ts[0]));
        assert forall|t: DateToken| has_token(ts.skip(1), t) implies comp_field(t, d1)
            == comp_field(t, d2) by {
            assert(has_token(ts, t));
        }
        lemma_tokens_text_agrees(ts.skip(1), d1, d2);
        assert(token_text(ts[0], d1) == token_text(ts[0], d2));
    }
}

/// Parsing what a format rendered gives back the date, except that
/// components the format does not carry come back as zero.
pub proof fn lemma_parse_tokens_format(ts: Seq<DateToken>, d: DateTime)
    requires
        d.valid(),
        has_token(ts, DateToken::Year4),
        has_token(ts, DateToken::Month2),
        has_token(ts, DateToken::Day2),
    ensures
        spec_parse_tokens(ts, tokens_text(ts, d)) == Some(zero_missing(ts, d)),
{
    let s = tokens_text(ts, d);
    lemma_tokens_match_format(ts, d);
    lemma_find_value_format(ts, d, DateToken::Year4);
    lemma_find_value_format(ts, d, DateToken::Month2);
    lemma_find_value_format(ts, d, DateToken::Day2);
    lemma_find_value_format(ts, d, DateToken::Hour2);
    lemma_find_value_format(ts, d, DateToken::Minute2);
    lemma_find_value_format(ts, d, DateToken::Second2);
    lemma_find_value_format(ts, d, DateToken::Millis3);
    assert(tokens_date(ts, s) == zero_missing(ts, d));
    assert(zero_missing(ts, d).valid());
}

/// A date with every component the format does not carry zeroed out.
pub open spec fn zero_missing(ts: Seq<DateToken>, d: DateTime) -> DateTime {
    DateTime {
        year: d.year,
        month: d.month,
        day: d.day,
        hour: if has_token(ts, DateToken::Hour2) {
            d.hour
        } else {
            0
        },
        minute: if has_token(ts, DateToken::Minute2) {
            d.minute
        } else {
            0
        },
        second: if has_token(ts, DateToken::Second2) {
            d.second
        } else {
            0
        },
        millisecond: if has_token(ts, DateToken::Millis3) {
            d.millisecond
        } else {
            0
        },
    }
}

/// Rendering a formatted text's parse gives the text back: the engine-level
/// statement that canonical strings round-trip.
pub proof fn lemma_tokens_round_trip(ts: Seq<DateToken>, d: DateTime)
    requires
        d.valid(),
        has_token(ts, DateToken::Year4),
        has_token(ts, DateToken::Month2),
        has_token(ts, DateToken::Day2),
    ensures
        spec_parse_tokens(ts, tokens_text(ts, d)) is Some,
        tokens_text(ts, spec_parse_tokens(ts, tokens_text(ts, d)).unwrap()) == tokens_text(ts, d),
{
    lemma_parse_tokens_format(ts, d);
    lemma_tokens_text_agrees(ts, zero_missing(ts, d), d);
}

/// Rendering a longer token sequence renders the two parts in turn.
pub proof fn lemma_tokens_text_append(a: Seq<DateToken>, b: Seq<DateToken>, d: DateTime)
    ensures
        tokens_text(a + b, d) == tokens_text(a, d) + tokens_text(b, d),
    decreases a.len(),
{
    if a.len() == 0 {
        assert(a + b =~= b);
        assert(tokens_text(a, d) + tokens_text(b, d) =~= tokens_text(b, d));
    } else {
        lemma_tokens_text_append(a.skip(1), b, d);
        assert((a + b).skip(1) =~= a.skip(1) + b);
        assert((a + b)[0] == a[0]);
        assert(token_text(a[0], d) + (tokens_text(a.skip(1), d) + tokens_text(b, d)) =~= (
        token_text(a[0], d) + tokens_text(a.skip(1), d)) + tokens_text(b, d));
    }
}

/// The number of characters a token occupies.
pub fn token_width_x(t: DateToken) -> (w: usize)
    ensures
        w == token_width(t),
{
    match t {
        DateToken::Year4 => 4,
        DateToken::Millis3 => 3,
        DateToken::Literal(_) => 1,
        _ => 2,
    }
}

/// Formats a date by rendering each token in turn.
pub fn format_tokens(ts: &Vec<DateToken>, d: &DateTime) -> (r: String)
    requires
        d.valid(),
    ensures
        r@ == tokens_text(ts@, *d),
{
    let mut out = String::new();
    let mut k: usize = 0;
    proof {
        assert(ts@.take(0) =~= Seq::<DateToken>::empty());
    }
    while k < ts.len()
        invariant
            d.valid(),
            k <= ts@.len(),
            out@ == tokens_text(ts@.take(k as int), *d),
        decreases ts@.len() - k,
    {
        let ghost pre = out@;
        let t = ts[k];
        match t {
            DateToken::Year4 => push_pad4(&mut out, d.year as u32),
            DateToken::Month2 => push_pad2(&mut out, d.month as u32),
            DateToken::Day2 => push_pad2(&mut out, d.day as u32),
            DateToken::Hour2 => push_pad2(&mut out, d.hour as u32),
            DateToken::Minute2 => push_pad2(&mut out, d.minute as u32),
            DateToken::Second2 => push_pad2(&mut out, d.second as u32),
            DateToken::Millis3 => push_pad3(&mut out, d.millisecond as u32),
            DateToken::Literal(c) => push_char(&mut out, c),
        }
        proof {
            assert(out@ == pre + token_text(ts@[k as int], *d));
            lemma_tokens_text_append(ts@.take(k as int), seq![ts@[k as int]], *d);
            assert(ts@.take(k + 1) =~= ts@.take(k as int) + seq![ts@[k as int]]);
            assert(tokens_text(seq![ts@[k as int]], *d) == token_text(ts@[k as int], *d)
                + tokens_text(Seq::<DateToken>::empty(), *d)) by {
                assert(seq![ts@[k as int]].skip(1) =~= Seq::<DateToken>::empty());
            };
            assert(out@ =~= tokens_text(ts@.take(k + 1), *d));
        }
        k = k + 1;
    }
    proof {
        assert(ts@.take(ts@.len() as int) =~= ts@);
    }
    out
}

/// How far the parsing loop has carried one component slot: a filled slot
/// holds the component's first occurrence in the whole text, an empty slot
/// defers to whatever the unread remainder will yield.
spec fn slot_inv(
    slot: Option<u32>,
    ts: Seq<DateToken>,
    s: Seq<char>,
    k: int,
    pos: int,
    t: DateToken,
    bound: int,
) -> bool {
    match slot {
        Some(v) => find_value(ts, s, t) == Some(v as int) && v < bound,
        None => find_value(ts, s, t) == find_value(ts.skip(k), s.skip(pos), t),
    }
}

/// Consuming one token leaves every other component's first occurrence, and
/// resolves the consumed token's own component to the digits it covered.
proof fn lemma_engine_step(ts: Seq<DateToken>, s: Seq<char>, k: int, pos: int)
    requires
        0 <= k < ts.len(),
        0 <= pos,
        pos + token_width(ts[k]) <= s.len(),
    ensures
        forall|t: DateToken|
            ts[k] != t ==> find_value(ts.skip(k), s.skip(pos), t) == find_value(
                ts.skip(k + 1),
                s.skip(pos + token_width(ts[k])),
                t,
            ),
        find_value(ts.skip(k), s.skip(pos), ts[k]) == Some(
            digits_value(s.skip(pos).take(token_width(ts[k]))),
        ),
{
    assert(ts.skip(k)[0] == ts[k]);
    assert(ts.skip(k).skip(1) =~= ts.skip(k + 1));
    assert(s.skip(pos).skip(token_width(ts[k])) =~= s.skip(pos + token_width(ts[k])));
    assert forall|t: DateToken| ts[k] != t implies find_value(ts.skip(k), s.skip(pos), t)
        == find_value(ts.skip(k + 1), s.skip(pos + token_width(ts[k])), t) by {
        assert(find_value(ts.skip(k), s.skip(pos), t) == find_value(
            ts.skip(k).skip(1),
            s.skip(pos).skip(token_width(ts.skip(k)[0])),
            t,
        ));
    }
}

/// A fresh error for text that does not fit the format being parsed.
fn parse_error() -> ParseError {
    ParseError::new(String::from_str("date text does not match its format"))
}

/// Parses a text against a token sequence: every token must match in turn,
/// the text must end where the tokens do, and the collected components must
/// form a real calendar date. Components the format does not carry are zero.
pub fn parse_tokens(ts: &Vec<DateToken>, s: &str) -> (r: Result<DateTime, ParseError>)
    ensures
        match r {
            Ok(d) => spec_parse_tokens(ts@, s@) == Some(d) && d.valid(),
            Err(_) => spec_parse_tokens(ts@, s@) is None,
        },
{
    let len = s.unicode_len();
    let mut pos: usize = 0;
    let mut k: usize = 0;
    let mut year: Option<u32> = None;
    let mut month: Option<u32> = None;
    let mut day: Option<u32> = None;
    let mut hour: Option<u32> = None;
    let mut minute: Option<u32> = None;
    let mut second: Option<u32> = None;
    let mut millis: Option<u32> = None;
    proof {
        assert(ts@.skip(0) =~= ts@);
        assert(s@.skip(0) =~= s@);
    }
    while k < ts.len()
        invariant
            k <= ts@.len(),
            pos <= len,
            len == s@.len(),
            tokens_match(ts@, s@) <==> tokens_match(ts@.skip(k as int), s@.skip(pos as int)),
            slot_inv(year, ts@, s@, k as int, pos as int, DateToken::Year4, 10000),
            slot_inv(month, ts@, s@, k as int, pos as int, DateToken::Month2, 100),
            slot_inv(day, ts@, s@, k as int, pos as int, DateToken::Day2, 100),
            slot_inv(hour, ts@, s@, k as int, pos as int, DateToken::Hour2, 100),
            slot_inv(minute, ts@, s@, k as int, pos as int, DateToken::Minute2, 100),
            slot_inv(second, ts@, s@, k as int, pos as int, DateToken::Second2, 100),
            slot_inv(millis, ts@, s@, k as int, pos as int, DateToken::Millis3, 1000),
        decreases ts@.len() - k,
    {
        let t = ts[k];
        let ghost rem_ts = ts@.skip(k as int);
        let ghost rem_s = s@.skip(pos as int);
        proof {
            assert(rem_ts[0] == ts@[k as int]);
            assert(rem_ts.skip(1) =~= ts@.skip(k + 1));
        }
        let w = token_width_x(t);
        if len - pos < w {
            proof {
                assert(rem_s.len() == len - pos);
                assert(!tokens_match(rem_ts, rem_s));
            }
            return Err(parse_error());
        }
        match t {
            DateToken::Literal(c) => {
                let ch = s.get_char(pos);
                proof {
                    assert(rem_s.take(1) =~= seq![s@[pos as int]]);
                }
                if ch != c {
                    proof {
                        assert(rem_s.take(1)[0] == s@[pos as int]);
                        assert(seq![c][0] == c);
                        assert(!token_matches(rem_ts[0], rem_s.take(1)));
                        assert(!tokens_match(rem_ts, rem_s));
                    }
                    return Err(parse_error());
                }
                proof {
                    assert(token_matches(rem_ts[0], rem_s.take(1)));
                    assert(rem_s.skip(1) =~= s@.skip(pos + 1));
                    assert(tokens_match(rem_ts, rem_s) <==> tokens_match(
                        ts@.skip(k + 1),
                        s@.skip(pos + 1),
                    ));
                    lemma_engine_step(ts@, s@, k as int, pos as int);
                }
                pos = pos + 1;
                k = k + 1;
            },
            _ => {
                match read_fixed(s, pos, w) {
                    None => {
                        proof {
                            assert(rem_s.take(w as int) =~= s@.subrange(pos as int, pos + w));
                            assert(!token_matches(rem_ts[0], rem_s.take(w as int)));
                            assert(!tokens_match(rem_ts, rem_s));
                        }
                        return Err(parse_error());
                    },
                    Some(v) => {
                        proof {
                            assert(rem_s.take(w as int) =~= s@.subrange(pos as int, pos + w));
                            assert(token_matches(rem_ts[0], rem_s.take(w as int)));
                            assert(rem_s.skip(w as int) =~= s@.skip(pos + w));
                            assert(tokens_match(rem_ts, rem_s) <==> tokens_match(
                                ts@.skip(k + 1),
                                s@.skip(pos + w),
                            ));
                            assert(digits_value(rem_s.take(w as int)) == v as int);
                            lemma_engine_step(ts@, s@, k as int, pos as int);
                            reveal_with_fuel(pow10, 5);
                            assert(pow10(4) == 10000 && pow10(3) == 1000 && pow10(2) == 100);
                        }
                        match t {
                            DateToken::Year4 => {
                                if year.is_none() {
                                    year = Some(v);
                                }
                            },
                            DateToken::Month2 => {
                                if month.is_none() {
                                    month = Some(v);
                                }
                            },
                            DateToken::Day2 => {
                                if day.is_none() {
                                    day = Some(v);
                                }
                            },
                            DateToken::Hour2 => {
                                if hour.is_none() {
                                    hour = Some(v);
                                }
                            },
                            DateToken::Minute2 => {
                                if minute.is_none() {
                                    minute = Some(v);
                                }
                            },
                            DateToken::Second2 => {
                                if second.is_none() {
                                    second = Some(v);
                                }
                            },
                            DateToken::Millis3 => {
                                if millis.is_none() {
                                    millis = Some(v);
                                }
                            },
                            DateToken::Literal(_) => {
                            },
                        }
                        pos = pos + w;
                        k = k + 1;
                    },
                }
            },
        }
    }
    proof {
        assert(ts@.skip(k as int) =~= Seq::<DateToken>::empty());
    }
    if pos != len {
        proof {
            assert(s@.skip(pos as int).len() > 0);
            assert(!tokens_match(ts@.skip(k as int), s@.skip(pos as int)));
        }
        return Err(parse_error());
    }
    proof {
        assert(s@.skip(pos as int).len() == 0);
        assert(tokens_match(ts@.skip(k as int), s@.skip(pos as int)));
        assert(tokens_match(ts@, s@));
    }
    let yv = match year {
        Some(v) => v,
        None => {
            return Err(parse_error());
        },
    };
    let mov = match month {
        Some(v) => v,
        None => {
            return Err(parse_error());
        },
    };
    let dv = match day {
        Some(v) => v,
        None => {
            return Err(parse_error());
        },
    };
    let hv = match hour {
        Some(v) => v,
        None => 0,
    };
    let miv = match minute {
        Some(v) => v,
        None => 0,
    };
    let sv = match second {
        Some(v) => v,
        None => 0,
    };
    let msv = match millis {
        Some(v) => v,
        None => 0,
    };
    let d = DateTime {
        year: yv as u16,
        month: mov as u8,
        day: dv as u8,
        hour: hv as u8,
        minute: miv as u8,
        second: sv as u8,
        millisecond: msv as u16,
    };
    proof {
        assert(tokens_date(ts@, s@) == d);
    }
    if mov < 1 || mov > 12 {
        return Err(parse_error());
    }
    if dv < 1 || dv > month_days(yv, mov) {
        return Err(parse_error());
    }
    if hv > 23 || miv > 59 || sv > 59 {
        return Err(parse_error());
    }
    proof {
        assert(d.valid());
        assert(spec_parse_tokens(ts@, s@) == Some(d));
    }
    Ok(d)
}

} // verus!
