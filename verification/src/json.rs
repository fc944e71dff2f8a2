//! A tree-shaped JSON value with a verified plain-text emitter.
//!
//! Schema assembly produces these values, and the emitter turns them into
//! the exact wire text. Numbers are scaled decimals — a mantissa and the
//! count of digits after the point — so `1.5`, `1.01` and `256` all render
//! exactly as written, with no floating point anywhere.

use vstd::prelude::*;

use crate::text::{dec_nat, digit_char, pow10, push_char, push_u64_dec};

verus! {

/// A decimal number: `mantissa` with `scale` digits after the point.
#[derive(PartialEq, Eq, Structural, Debug, Clone, Copy)]
pub struct Decimal {
    /// All digits of the number, as one signed integer.
    pub mantissa: i64,
    /// How many of the mantissa's digits sit after the decimal point.
    pub scale: u8,
}

/// A fixed-width run of decimal digits, zero-padded on the left.
pub open spec fn dec_fixed(n: int, w: int) -> Seq<char>
    decreases w,
{
    if w <= 0 {
        Seq::<char>::empty()
    } else {
        dec_fixed(n / 10, w - 1) + seq![digit_char(n % 10)]
    }
}

/// The text of an unsigned decimal with a scale: the integer digits, then a
/// point and exactly `scale` fraction digits, or no point at all for scale
/// zero.
pub open spec fn unsigned_decimal_text(mag: int, scale: int) -> Seq<char> {
    if scale <= 0 {
        dec_nat(mag)
    } else {
        dec_nat(mag / pow10(scale)) + seq!['.'] + dec_fixed(mag % pow10(scale), scale)
    }
}

impl Decimal {
    /// Whether the scale is small enough to render.
    pub open spec fn wf(self) -> bool {
        self.scale <= 9
    }

    /// The exact text this number renders to.
    pub open spec fn spec_text(self) -> Seq<char> {
        if self.mantissa < 0 {
            seq!['-'] + unsigned_decimal_text(-(self.mantissa as int), self.scale as int)
        } else {
            unsigned_decimal_text(self.mantissa as int, self.scale as int)
        }
    }

    /// A decimal from a mantissa and a digit count after the point.
    pub fn new(mantissa: i64, scale: u8) -> (r: Decimal)
        requires
            scale <= 9,
        ensures
            r == (Decimal { mantissa, scale }),
            r.wf(),
    {
        Decimal { mantissa, scale }
    }

    /// A decimal holding a plain integer.
    pub fn integer(value: i64) -> (r: Decimal)
        ensures
            r == (Decimal { mantissa: value, scale: 0 }),
            r.wf(),
    {
        Decimal { mantissa: value, scale: 0 }
    }

    /// Renders the number.
    pub fn to_text(&self) -> (r: String)
        requires
            self.wf(),
        ensures
            r@ == self.spec_text(),
    {
        let mut out = String::new();
        let mag: u64 = if self.mantissa >= 0 {
            self.mantissa as u64
        } else {
            push_char(&mut out, '-');
            (-(self.mantissa + 1)) as u64 + 1
        };
        if self.scale == 0 {
            push_u64_dec(&mut out, mag);
        } else {
            let p = pow10_u64(self.scale as u32);
            push_u64_dec(&mut out, mag / p);
            push_char(&mut out, '.');
            push_dec_fixed(&mut out, mag % p, self.scale as u32);
        }
        proof {
            if self.mantissa < 0 {
                assert(out@ =~= self.spec_text());
            } else {
                assert(out@ =~= self.spec_text());
            }
        }
        out
    }
}

/// A JSON value as the schema core produces it: an object with ordered
/// keys, or a scalar.
#[derive(Debug)]
pub enum Json {
    /// A boolean scalar.
    Bool(bool),
    /// A number scalar.
    Num(Decimal),
    /// A string scalar.
    Str(String),
    /// An object; entries keep exactly the order they were added in.
    Object(Vec<(String, Json)>),
}

impl Json {
    /// Whether every number in the value can be rendered.
    pub open spec fn wf(self) -> bool
        decreases self,
    {
        match self {
            Json::Bool(_) => true,
            Json::Num(d) => d.wf(),
            Json::Str(_) => true,
            Json::Object(entries) => entries_wf(entries@),
        }
    }

    /// The exact text this value renders to.
    pub open spec fn spec_text(self) -> Seq<char>
        decreases self,
    {
        match self {
            Json::Bool(b) => bool_text(b),
            Json::Num(d) => d.spec_text(),
            Json::Str(s) => quoted(s@),
            Json::Object(entries) => seq!['{'] + entries_text(entries@) + seq!['}'],
        }
    }

    /// Renders the value as its exact JSON text.
    pub fn to_json_string(&self) -> (r: String)
        requires
            self.wf(),
        ensures
            r@ == self.spec_text(),
        decreases *self,
    {
        match self {
            Json::Bool(b) => {
                if *b {
                    String::from_str("true")
                } else {
                    String::from_str("false")
                }
            },
            Json::Num(d) => d.to_text(),
            Json::Str(s) => {
                let mut out = String::new();
                push_char(&mut out, '"');
                push_escaped(&mut out, s.as_str());
                push_char(&mut out, '"');
                proof {
                    assert(out@ =~= self.spec_text());
                }
                out
            },
            Json::Object(entries) => {
                proof {
                    assert(*self == Json::Object(*entries));
                    assert(entries_wf(entries@));
                }
                let mut out = String::new();
                push_char(&mut out, '{');
                let n = entries.len();
                let mut i: usize = 0;
                while i < n
                    invariant
                        n == entries@.len(),
                        i <= n,
                        entries_wf(entries@),
                        i == 0 ==> out@ == seq!['{'],
                        i > 0 ==> out@ == seq!['{'] + entry_text(entries@[0]) + tail_entries_text(
                            entries@.subrange(1, i as int),
                        ),
                        *self == Json::Object(*entries),
                    decreases n - i,
                {
                    if i > 0 {
                        push_char(&mut out, ',');
                    }
                    let pair = &entries[i];
                    push_char(&mut out, '"');
                    push_escaped(&mut out, pair.0.as_str());
                    push_char(&mut out, '"');
                    push_char(&mut out, ':');
                    proof {
                        lemma_entries_wf_index(entries@, i as int);
                        assert(decreases_to!(*self => self->Object_0));
                        assert(decreases_to!(*self => *entries));
                        assert(decreases_to!(*entries => entries@));
                        assert(decreases_to!(entries@ => entries@[i as int]));
                        assert(decreases_to!(entries@[i as int] => entries@[i as int].1));
                    }
                    let rendered = pair.1.to_json_string();
                    out.append(rendered.as_str());
                    proof {
                        if i == 0 {
                            assert(out@ =~= seq!['{'] + entry_text(entries@[0]));
                            assert(entries@.subrange(1, 1) =~= Seq::<(String, Json)>::empty());
                            assert(out@ =~= seq!['{'] + entry_text(entries@[0])
                                + tail_entries_text(entries@.subrange(1, 1)));
                        } else {
                            lemma_tail_entries_append(
                                entries@.subrange(1, i as int),
                                seq![entries@[i as int]],
                            );
                            assert(entries@.subrange(1, i + 1) =~= entries@.subrange(1, i as int)
                                + seq![entries@[i as int]]);
                            assert(tail_entries_text(seq![entries@[i as int]]) == seq![',']
                                + entry_text(entries@[i as int]) + tail_entries_text(
                                Seq::<(String, Json)>::empty(),
                            )) by {
                                assert(seq![entries@[i as int]].skip(1) =~= Seq::<
                                    (String, Json),
                                >::empty());
                            };
                            assert(out@ =~= seq!['{'] + entry_text(entries@[0])
                                + tail_entries_text(entries@.subrange(1, i + 1)));
                        }
                    }
                    i = i + 1;
                }
                push_char(&mut out, '}');
                proof {
                    if n == 0 {
                        assert(out@ =~= self.spec_text());
                    } else {
                        assert(entries@.subrange(1, n as int) =~= entries@.skip(1));
                        assert(out@ =~= self.spec_text());
                    }
                }
                out
            },
        }
    }
}

/// Whether every number under each entry can be rendered.
pub open spec fn entries_wf(es: Seq<(String, Json)>) -> bool
    decreases es,
{
    if es.len() == 0 {
        true
    } else {
        es[0].1.wf() && entries_wf(es.skip(1))
    }
}

/// Every entry of a well-formed entry sequence is well-formed.
pub proof fn lemma_entries_wf_index(es: Seq<(String, Json)>, i: int)
    requires
        entries_wf(es),
        0 <= i < es.len(),
    ensures
        es[i].1.wf(),
    decreases i,
{
    if i > 0 {
        lemma_entries_wf_index(es.skip(1), i - 1);
        assert(es.skip(1)[i - 1] == es[i]);
    }
}

/// The text of a boolean scalar.
pub open spec fn bool_text(b: bool) -> Seq<char> {
    if b {
        "true"@
    } else {
        "false"@
    }
}

/// The text of a JSON string literal: the escaped text in quotes.
pub open spec fn quoted(s: Seq<char>) -> Seq<char> {
    seq!['"'] + escape_text(s) + seq!['"']
}

/// The text an optional boolean option contributes to an object whose first
/// entry is already in place: nothing, or a comma and its entry.
pub open spec fn opt_bool_text(key: Seq<char>, o: Option<bool>) -> Seq<char> {
    match o {
        None => Seq::<char>::empty(),
        Some(b) => seq![','] + quoted(key) + seq![':'] + bool_text(b),
    }
}

/// The text an optional number option contributes: nothing, or a comma and
/// its entry.
pub open spec fn opt_num_text(key: Seq<char>, o: Option<Decimal>) -> Seq<char> {
    match o {
        None => Seq::<char>::empty(),
        Some(d) => seq![','] + quoted(key) + seq![':'] + d.spec_text(),
    }
}

/// The text an optional string option contributes: nothing, or a comma and
/// its entry.
pub open spec fn opt_str_text(key: Seq<char>, o: Option<Seq<char>>) -> Seq<char> {
    match o {
        None => Seq::<char>::empty(),
        Some(s) => seq![','] + quoted(key) + seq![':'] + quoted(s),
    }
}

/// The views of an optional string.
pub open spec fn opt_view(o: Option<String>) -> Option<Seq<char>> {
    match o {
        None => None,
        Some(s) => Some(s@),
    }
}

/// Appending a well-formed entry keeps an entry sequence well-formed.
pub proof fn lemma_entries_wf_push(es: Seq<(String, Json)>, e: (String, Json))
    requires
        entries_wf(es),
        e.1.wf(),
    ensures
        entries_wf(es.push(e)),
    decreases es,
{
    if es.len() == 0 {
        assert(es.push(e)[0] == e);
        assert(es.push(e).skip(1) =~= Seq::<(String, Json)>::empty());
        assert(entries_wf(Seq::<(String, Json)>::empty()));
    } else {
        lemma_entries_wf_push(es.skip(1), e);
        assert(es.push(e)[0] == es[0]);
        assert(es.push(e).skip(1) =~= es.skip(1).push(e));
    }
}

/// Appends one entry to an object under construction, keeping the entries'
/// text in step: the first entry contributes its bare text, every later one
/// a comma-prefixed text.
pub fn push_entry(es: &mut Vec<(String, Json)>, key: &str, v: Json)
    requires
        v.wf(),
        entries_wf(old(es)@),
    ensures
        entries_wf(final(es)@),
        final(es)@.len() == old(es)@.len() + 1,
        old(es)@.len() == 0 ==> entries_text(final(es)@) == (quoted(key@) + seq![':'])
            + v.spec_text(),
        old(es)@.len() > 0 ==> entries_text(final(es)@) == entries_text(old(es)@) + (((seq![',']
            + quoted(key@)) + seq![':']) + v.spec_text()),
{
    let e = (String::from_str(key), v);
    let ghost g = e;
    let ghost pre = es@;
    es.push(e);
    proof {
        lemma_entries_wf_push(pre, g);
        lemma_entries_text_push(pre, g);
        if pre.len() > 0 {
            lemma_regroup_comma_entry(entries_text(pre), quoted(key@), g.1.spec_text());
        }
    }
}

/// Appends an overridden boolean option, or nothing when it is unset.
pub fn push_opt_bool(es: &mut Vec<(String, Json)>, key: &str, o: Option<bool>)
    requires
        entries_wf(old(es)@),
        old(es)@.len() > 0,
    ensures
        entries_wf(final(es)@),
        final(es)@.len() >= old(es)@.len(),
        entries_text(final(es)@) == entries_text(old(es)@) + opt_bool_text(key@, o),
{
    match o {
        Some(b) => {
            push_entry(es, key, Json::Bool(b));
        },
        None => {
            proof {
                lemma_append_empty(entries_text(es@));
            }
        },
    }
}

/// Appends an overridden number option, or nothing when it is unset.
pub fn push_opt_num(es: &mut Vec<(String, Json)>, key: &str, o: Option<Decimal>)
    requires
        entries_wf(old(es)@),
        old(es)@.len() > 0,
        o matches Some(d) ==> o.unwrap().wf(),
    ensures
        entries_wf(final(es)@),
        final(es)@.len() >= old(es)@.len(),
        entries_text(final(es)@) == entries_text(old(es)@) + opt_num_text(key@, o),
{
    match o {
        Some(d) => {
            push_entry(es, key, Json::Num(d));
        },
        None => {
            proof {
                lemma_append_empty(entries_text(es@));
            }
        },
    }
}

/// Appends an overridden string option, or nothing when it is unset.
pub fn push_opt_str(es: &mut Vec<(String, Json)>, key: &str, o: &Option<String>)
    requires
        entries_wf(old(es)@),
        old(es)@.len() > 0,
    ensures
        entries_wf(final(es)@),
        final(es)@.len() >= old(es)@.len(),
        entries_text(final(es)@) == entries_text(old(es)@) + opt_str_text(key@, opt_view(*o)),
{
    match o {
        Some(s) => {
            push_entry(es, key, Json::Str(s.clone()));
        },
        None => {
            proof {
                lemma_append_empty(entries_text(es@));
            }
        },
    }
}

/// Regroups the text of a comma-then-entry step: appending a comma and then
/// an entry is the same as appending the entry's comma-prefixed text.
pub proof fn lemma_regroup_comma_entry(t: Seq<char>, q: Seq<char>, v: Seq<char>)
    ensures
        (t + seq![',']) + ((q + seq![':']) + v) == t + (((seq![','] + q) + seq![':']) + v),
{
    vstd::seq_lib::lemma_concat_associative(seq![','], q, seq![':']);
    vstd::seq_lib::lemma_concat_associative(seq![','], q + seq![':'], v);
    vstd::seq_lib::lemma_concat_associative(t, seq![','], (q + seq![':']) + v);
}

/// Appending nothing to a text leaves it unchanged.
pub proof fn lemma_append_empty(t: Seq<char>)
    ensures
        t + Seq::<char>::empty() == t,
{
    assert(t + Seq::<char>::empty() =~= t);
}

/// Appending one entry to an object's entries extends their text by that
/// entry, with a comma unless it is the first.
pub proof fn lemma_entries_text_push(es: Seq<(String, Json)>, e: (String, Json))
    ensures
        entries_text(es.push(e)) == if es.len() == 0 {
            entry_text(e)
        } else {
            entries_text(es) + seq![','] + entry_text(e)
        },
{
    assert(es.push(e) =~= es + seq![e]);
    if es.len() == 0 {
        assert(es.push(e)[0] == e);
        assert(es.push(e).skip(1) =~= Seq::<(String, Json)>::empty());
        assert(entries_text(es.push(e)) =~= entry_text(e));
    } else {
        assert((es + seq![e])[0] == es[0]);
        assert((es + seq![e]).skip(1) =~= es.skip(1) + seq![e]);
        lemma_tail_entries_append(es.skip(1), seq![e]);
        assert(tail_entries_text(seq![e]) == seq![','] + entry_text(e) + tail_entries_text(
            Seq::<(String, Json)>::empty(),
        )) by {
            assert(seq![e].skip(1) =~= Seq::<(String, Json)>::empty());
        };
        assert(entries_text(es.push(e)) =~= entries_text(es) + seq![','] + entry_text(e));
    }
}

/// The text of an object's entries after the first: each preceded by a
/// comma.
pub open spec fn tail_entries_text(es: Seq<(String, Json)>) -> Seq<char>
    decreases es,
{
    if es.len() == 0 {
        Seq::<char>::empty()
    } else {
        seq![','] + entry_text(es[0]) + tail_entries_text(es.skip(1))
    }
}

/// The text of all of an object's entries, comma-separated.
pub open spec fn entries_text(es: Seq<(String, Json)>) -> Seq<char>
    decreases es,
{
    if es.len() == 0 {
        Seq::<char>::empty()
    } else {
        entry_text(es[0]) + tail_entries_text(es.skip(1))
    }
}

/// The text of one object entry: the quoted escaped key, a colon, and the
/// rendered value.
pub open spec fn entry_text(e: (String, Json)) -> Seq<char>
    decreases e,
{
    quoted(e.0@) + seq![':'] + e.1.spec_text()
}

/// Comma-prefixed entry text distributes over concatenation.
pub proof fn lemma_tail_entries_append(a: Seq<(String, Json)>, b: Seq<(String, Json)>)
    ensures
        tail_entries_text(a + b) == tail_entries_text(a) + tail_entries_text(b),
    decreases a.len(),
{
    if a.len() == 0 {
        assert(a + b =~= b);
        assert(tail_entries_text(a) + tail_entries_text(b) =~= tail_entries_text(b));
    } else {
        lemma_tail_entries_append(a.skip(1), b);
        assert((a + b).skip(1) =~= a.skip(1) + b);
        assert((a + b)[0] == a[0]);
        assert((seq![','] + entry_text(a[0])) + (tail_entries_text(a.skip(1)) + tail_entries_text(
            b,
        )) =~= ((seq![','] + entry_text(a[0])) + tail_entries_text(a.skip(1)))
            + tail_entries_text(b));
        assert(tail_entries_text(a + b) =~= tail_entries_text(a) + tail_entries_text(b));
    }
}

/// Ten to the given small power.
pub(crate) fn pow10_u64(w: u32) -> (r: u64)
    requires
        w <= 9,
    ensures
        r == pow10(w as int),
        r >= 1,
{
    let mut i: u32 = 0;
    let mut acc: u64 = 1;
    while i < w
        invariant
            i <= w <= 9,
            acc == pow10(i as int),
            1 <= acc <= 1000000000,
        decreases w - i,
    {
        proof {
            reveal_with_fuel(pow10, 11);
            assert(pow10(i as int + 1) == 10 * pow10(i as int));
            assert(pow10(9) == 1000000000);
            assert(pow10(i as int) <= pow10(9)) by {
                lemma_pow10_mono(i as int, 9);
            }
        }
        acc = acc * 10;
        i = i + 1;
    }
    acc
}

/// A longer power of ten is at least as large.
proof fn lemma_pow10_mono(a: int, b: int)
    requires
        0 <= a <= b,
    ensures
        pow10(a) <= pow10(b),
    decreases b - a,
{
    if a < b {
        lemma_pow10_mono(a, b - 1);
        assert(pow10(b) == 10 * pow10(b - 1));
        assert(pow10(a) >= 1) by {
            lemma_pow10_pos(a);
        }
        lemma_pow10_pos(b - 1);
    }
}

/// Powers of ten are positive.
proof fn lemma_pow10_pos(a: int)
    ensures
        pow10(a) >= 1,
    decreases
        (if a > 0 {
            a
        } else {
            0
        }),
{
    if a > 0 {
        lemma_pow10_pos(a - 1);
    }
}

/// Appends a fixed-width zero-padded run of digits.
pub(crate) fn push_dec_fixed(s: &mut String, n: u64, w: u32)
    requires
        w <= 9,
    ensures
        final(s)@ == old(s)@ + dec_fixed(n as int, w as int),
    decreases w,
{
    if w == 0 {
        proof {
            assert(final(s)@ =~= old(s)@ + dec_fixed(n as int, 0));
        }
    } else {
        push_dec_fixed(s, n / 10, w - 1);
        crate::text::push_digit(s, (n % 10) as u32);
        proof {
            assert(final(s)@ =~= old(s)@ + dec_fixed(n as int, w as int));
        }
    }
}

/// The escape of one character inside a JSON string literal.
pub open spec fn escape_char(c: char) -> Seq<char> {
    if c == '"' {
        seq!['\\', '"']
    } else if c == '\\' {
        seq!['\\', '\\']
    } else if c == '\n' {
        seq!['\\', 'n']
    } else if c == '\r' {
        seq!['\\', 'r']
    } else if c == '\t' {
        seq!['\\', 't']
    } else if c == '\u{8}' {
        seq!['\\', 'b']
    } else if c == '\u{c}' {
        seq!['\\', 'f']
    } else if (c as u32) < 32 {
        seq!['\\', 'u', '0', '0', hex_char((c as u32) as int / 16), hex_char((c as u32) as int % 16)]
    } else {
        seq![c]
    }
}

/// The lowercase hexadecimal character for a value below sixteen.
pub open spec fn hex_char(d: int) -> char {
    if d < 10 {
        digit_char(d)
    } else if d == 10 {
        'a'
    } else if d == 11 {
        'b'
    } else if d == 12 {
        'c'
    } else if d == 13 {
        'd'
    } else if d == 14 {
        'e'
    } else {
        'f'
    }
}

/// The body of a JSON string literal: every character escaped.
pub open spec fn escape_text(s: Seq<char>) -> Seq<char>
    decreases s.len(),
{
    if s.len() == 0 {
        Seq::<char>::empty()
    } else {
        escape_char(s[0]) + escape_text(s.skip(1))
    }
}

/// Escaping a longer text escapes the two parts in turn.
pub proof fn lemma_escape_text_append(a: Seq<char>, b: Seq<char>)
    ensures
        escape_text(a + b) == escape_text(a) + escape_text(b),
    decreases a.len(),
{
    if a.len() == 0 {
        assert(a + b =~= b);
        assert(escape_text(a) + escape_text(b) =~= escape_text(b));
    } else {
        lemma_escape_text_append(a.skip(1), b);
        assert((a + b).skip(1) =~= a.skip(1) + b);
        assert((a + b)[0] == a[0]);
        assert(escape_char(a[0]) + (escape_text(a.skip(1)) + escape_text(b)) =~= (escape_char(a[0])
            + escape_text(a.skip(1))) + escape_text(b));
    }
}

/// The lowercase hexadecimal character for a value below sixteen.
fn hex_char_x(d: u32) -> (r: char)
    requires
        d < 16,
    ensures
        r == hex_char(d as int),
{
    match d {
        0 => '0',
        1 => '1',
        2 => '2',
        3 => '3',
        4 => '4',
        5 => '5',
        6 => '6',
        7 => '7',
        8 => '8',
        9 => '9',
        10 => 'a',
        11 => 'b',
        12 => 'c',
        13 => 'd',
        14 => 'e',
        _ => 'f',
    }
}

/// Appends one character of a JSON string literal, escaped as needed.
fn push_escaped_char(out: &mut String, c: char)
    ensures
        final(out)@ == old(out)@ + escape_char(c),
{
    if c == '"' {
        push_char(out, '\\');
        push_char(out, '"');
    } else if c == '\\' {
        push_char(out, '\\');
        push_char(out, '\\');
    } else if c == '\n' {
        push_char(out, '\\');
        push_char(out, 'n');
    } else if c == '\r' {
        push_char(out, '\\');
        push_char(out, 'r');
    } else if c == '\t' {
        push_char(out, '\\');
        push_char(out, 't');
    } else if c == '\u{8}' {
        push_char(out, '\\');
        push_char(out, 'b');
    } else if c == '\u{c}' {
        push_char(out, '\\');
        push_char(out, 'f');
    } else if (c as u32) < 32 {
        let v = c as u32;
        push_char(out, '\\');
        push_char(out, 'u');
        push_char(out, '0');
        push_char(out, '0');
        push_char(out, hex_char_x(v / 16));
        push_char(out, hex_char_x(v % 16));
    } else {
        push_char(out, c);
    }
    proof {
        assert(final(out)@ =~= old(out)@ + escape_char(c));
    }
}

/// Appends the body of a JSON string literal: the text with every character
/// escaped.
pub(crate) fn push_escaped(out: &mut String, s: &str)
    ensures
        final(out)@ == old(out)@ + escape_text(s@),
{
    let len = s.unicode_len();
    let mut i: usize = 0;
    proof {
        assert(s@.take(0) =~= Seq::<char>::empty());
        assert(old(out)@ + escape_text(s@.take(0)) =~= old(out)@);
    }
    while i < len
        invariant
            i <= len,
            len == s@.len(),
            out@ == old(out)@ + escape_text(s@.take(i as int)),
        decreases len - i,
    {
        let c = s.get_char(i);
        push_escaped_char(out, c);
        proof {
            lemma_escape_text_append(s@.take(i as int), seq![s@[i as int]]);
            assert(s@.take(i + 1) =~= s@.take(i as int) + seq![s@[i as int]]);
            assert(escape_text(seq![s@[i as int]]) == escape_char(s@[i as int]) + escape_text(
                Seq::<char>::empty(),
            )) by {
                assert(seq![s@[i as int]].skip(1) =~= Seq::<char>::empty());
            };
            assert(out@ =~= old(out)@ + escape_text(s@.take(i + 1)));
        }
        i = i + 1;
    }
    proof {
        assert(s@.take(len as int) =~= s@);
    }
}

} // verus!
