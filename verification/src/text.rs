//! Decimal digit rendering and parsing over character sequences.
//!
//! These are the shared building blocks for the date formats and for the
//! JSON emitter: zero-padded fixed-width numbers, minimal signed decimal
//! renderings, and their parsing counterparts.

use vstd::prelude::*;

verus! {

/// The character for a single decimal digit value.
pub open spec fn digit_char(d: int) -> char {
    if d == 0 {
        '0'
    } else if d == 1 {
        '1'
    } else if d == 2 {
        '2'
    } else if d == 3 {
        '3'
    } else if d == 4 {
        '4'
    } else if d == 5 {
        '5'
    } else if d == 6 {
        '6'
    } else if d == 7 {
        '7'
    } else if d == 8 {
        '8'
    } else {
        '9'
    }
}

/// Whether a character is a decimal digit.
pub open spec fn is_digit(c: char) -> bool {
    c == '0' || c == '1' || c == '2' || c == '3' || c == '4' || c == '5' || c == '6' || c == '7'
        || c == '8' || c == '9'
}

/// The numeric value of a decimal digit character.
pub open spec fn digit_value(c: char) -> int {
    if c == '0' {
        0
    } else if c == '1' {
        1
    } else if c == '2' {
        2
    } else if c == '3' {
        3
    } else if c == '4' {
        4
    } else if c == '5' {
        5
    } else if c == '6' {
        6
    } else if c == '7' {
        7
    } else if c == '8' {
        8
    } else {
        9
    }
}

/// A two-digit zero-padded decimal rendering.
pub open spec fn dec2(n: int) -> Seq<char> {
    seq![digit_char(n / 10), digit_char(n % 10)]
}

/// A three-digit zero-padded decimal rendering.
pub open spec fn dec3(n: int) -> Seq<char> {
    seq![digit_char(n / 100), digit_char((n / 10) % 10), digit_char(n % 10)]
}

/// A four-digit zero-padded decimal rendering.
pub open spec fn dec4(n: int) -> Seq<char> {
    seq![
        digit_char(n / 1000),
        digit_char((n / 100) % 10),
        digit_char((n / 10) % 10),
        digit_char(n % 10),
    ]
}

/// The minimal decimal rendering of a non-negative number.
pub open spec fn dec_nat(n: int) -> Seq<char>
    decreases n,
{
    if n < 10 {
        seq![digit_char(n)]
    } else {
        dec_nat(n / 10) + seq![digit_char(n % 10)]
    }
}

/// The minimal decimal rendering of a signed number: a leading `-` for
/// negative values, no leading zeros, and `0` for zero.
pub open spec fn dec_int(n: int) -> Seq<char> {
    if n < 0 {
        seq!['-'] + dec_nat(-n)
    } else {
        dec_nat(n)
    }
}

/// Whether every character of a sequence is a decimal digit.
pub open spec fn all_digits(s: Seq<char>) -> bool {
    forall|i: int| 0 <= i < s.len() ==> is_digit(s[i])
}

/// The number spelled by a sequence of decimal digits, most significant first.
pub open spec fn digits_value(s: Seq<char>) -> int
    decreases s.len(),
{
    if s.len() == 0 {
        0
    } else {
        digits_value(s.drop_last()) * 10 + digit_value(s.last())
    }
}

/// Whether a sequence spells an optionally negated run of decimal digits.
pub open spec fn is_decimal_int(s: Seq<char>) -> bool {
    if s.len() > 0 && s[0] == '-' {
        s.len() >= 2 && all_digits(s.skip(1))
    } else {
        s.len() >= 1 && all_digits(s)
    }
}

/// The number spelled by an optionally negated run of decimal digits.
pub open spec fn decimal_value(s: Seq<char>) -> int {
    if s.len() > 0 && s[0] == '-' {
        -digits_value(s.skip(1))
    } else {
        digits_value(s)
    }
}

/// A digit run never spells a negative number.
pub proof fn lemma_digits_value_nonneg(s: Seq<char>)
    ensures
        digits_value(s) >= 0,
    decreases s.len(),
{
    if s.len() > 0 {
        lemma_digits_value_nonneg(s.drop_last());
        assert(digit_value(s.last()) >= 0);
    }
}

/// Reading one more digit multiplies the value read so far by ten and adds it.
pub proof fn lemma_digits_value_step(s: Seq<char>, i: int)
    requires
        0 <= i < s.len(),
    ensures
        digits_value(s.take(i + 1)) == digits_value(s.take(i)) * 10 + digit_value(s[i]),
{
    assert(s.take(i + 1).drop_last() =~= s.take(i));
    assert(s.take(i + 1).last() == s[i]);
}

/// A prefix of a digit run never spells more than the whole run.
pub proof fn lemma_digits_prefix_le(s: Seq<char>, i: int)
    requires
        0 <= i <= s.len(),
    ensures
        digits_value(s.take(i)) <= digits_value(s),
    decreases s.len() - i,
{
    if i == s.len() {
        assert(s.take(i) =~= s);
    } else {
        lemma_digits_value_step(s, i);
        lemma_digits_value_nonneg(s.take(i));
        lemma_digits_prefix_le(s, i + 1);
    }
}

/// The character for a digit value is a digit character reading back as it.
pub proof fn lemma_digit_char_value(k: int)
    requires
        0 <= k < 10,
    ensures
        is_digit(digit_char(k)),
        digit_value(digit_char(k)) == k,
{
}

/// A two-digit rendering is all digits and reads back as its number.
pub proof fn lemma_dec2_value(n: int)
    requires
        0 <= n < 100,
    ensures
        all_digits(dec2(n)),
        digits_value(dec2(n)) == n,
        dec2(n).len() == 2,
{
    let s = dec2(n);
    reveal_with_fuel(digits_value, 4);
    lemma_digit_char_value(n / 10);
    lemma_digit_char_value(n % 10);
    assert(s.drop_last() =~= seq![digit_char(n / 10)]);
    assert(seq![digit_char(n / 10)].drop_last() =~= Seq::<char>::empty());
    assert forall|i: int| 0 <= i < s.len() implies is_digit(s[i]) by {
        if i == 0 {
            assert(s[i] == digit_char(n / 10));
        } else {
            assert(s[i] == digit_char(n % 10));
        }
    }
}

/// A three-digit rendering is all digits and reads back as its number.
pub proof fn lemma_dec3_value(n: int)
    requires
        0 <= n < 1000,
    ensures
        all_digits(dec3(n)),
        digits_value(dec3(n)) == n,
        dec3(n).len() == 3,
{
    let s = dec3(n);
    reveal_with_fuel(digits_value, 5);
    lemma_digit_char_value(n / 100);
    lemma_digit_char_value((n / 10) % 10);
    lemma_digit_char_value(n % 10);
    assert(s.drop_last() =~= seq![digit_char(n / 100), digit_char((n / 10) % 10)]);
    assert(s.drop_last().drop_last() =~= seq![digit_char(n / 100)]);
    assert(seq![digit_char(n / 100)].drop_last() =~= Seq::<char>::empty());
    assert(digits_value(s) == ((n / 100) * 10 + (n / 10) % 10) * 10 + n % 10);
    assert(n / 100 == (n / 10) / 10);
    assert((n / 10) / 10 * 10 + (n / 10) % 10 == n / 10);
    assert forall|i: int| 0 <= i < s.len() implies is_digit(s[i]) by {
        if i == 0 {
            assert(s[i] == digit_char(n / 100));
        } else if i == 1 {
            assert(s[i] == digit_char((n / 10) % 10));
        } else {
            assert(s[i] == digit_char(n % 10));
        }
    }
}

/// A four-digit rendering is all digits and reads back as its number.
pub proof fn lemma_dec4_value(n: int)
    requires
        0 <= n < 10000,
    ensures
        all_digits(dec4(n)),
        digits_value(dec4(n)) == n,
        dec4(n).len() == 4,
{
    let s = dec4(n);
    reveal_with_fuel(digits_value, 6);
    lemma_digit_char_value(n / 1000);
    lemma_digit_char_value((n / 100) % 10);
    lemma_digit_char_value((n / 10) % 10);
    lemma_digit_char_value(n % 10);
    assert(s.drop_last() =~= seq![
        digit_char(n / 1000),
        digit_char((n / 100) % 10),
        digit_char((n / 10) % 10),
    ]);
    assert(s.drop_last().drop_last() =~= seq![digit_char(n / 1000), digit_char((n / 100) % 10)]);
    assert(s.drop_last().drop_last().drop_last() =~= seq![digit_char(n / 1000)]);
    assert(seq![digit_char(n / 1000)].drop_last() =~= Seq::<char>::empty());
    assert(digits_value(s) == (((n / 1000) * 10 + (n / 100) % 10) * 10 + (n / 10) % 10) * 10 + n
        % 10);
    assert(n / 1000 == (n / 100) / 10);
    assert((n / 100) / 10 * 10 + (n / 100) % 10 == n / 100);
    assert(n / 100 == (n / 10) / 10);
    assert((n / 10) / 10 * 10 + (n / 10) % 10 == n / 10);
    assert forall|i: int| 0 <= i < s.len() implies is_digit(s[i]) by {
        if i == 0 {
            assert(s[i] == digit_char(n / 1000));
        } else if i == 1 {
            assert(s[i] == digit_char((n / 100) % 10));
        } else if i == 2 {
            assert(s[i] == digit_char((n / 10) % 10));
        } else {
            assert(s[i] == digit_char(n % 10));
        }
    }
}

/// The minimal rendering of a non-negative number reads back as that number,
/// is all digits, and has no leading zero.
pub proof fn lemma_dec_nat_value(n: int)
    requires
        n >= 0,
    ensures
        all_digits(dec_nat(n)),
        digits_value(dec_nat(n)) == n,
        dec_nat(n).len() >= 1,
        dec_nat(n)[0] == '0' ==> n == 0,
    decreases n,
{
    if n < 10 {
        assert(dec_nat(n) =~= seq![digit_char(n)]);
        assert(digits_value(dec_nat(n)) == digits_value(dec_nat(n).drop_last()) * 10
            + digit_value(dec_nat(n).last()));
        assert(dec_nat(n).drop_last() =~= Seq::<char>::empty());
    } else {
        lemma_dec_nat_value(n / 10);
        let s = dec_nat(n);
        assert(s =~= dec_nat(n / 10) + seq![digit_char(n % 10)]);
        assert(s.drop_last() =~= dec_nat(n / 10));
        assert(s.last() == digit_char(n % 10));
        assert(s[0] == dec_nat(n / 10)[0]);
    }
}

/// The minimal signed rendering of any number reads back as that number.
pub proof fn lemma_dec_int_value(n: int)
    ensures
        is_decimal_int(dec_int(n)),
        decimal_value(dec_int(n)) == n,
{
    if n < 0 {
        lemma_dec_nat_value(-n);
        let s = dec_int(n);
        assert(s[0] == '-');
        assert(s.skip(1) =~= dec_nat(-n));
    } else {
        lemma_dec_nat_value(n);
        let s = dec_int(n);
        assert(is_digit(s[0]));
        assert(s[0] != '-');
    }
}

/// Relies on `String::push`: appends exactly the one given character.
#[verifier::external_body]
pub(crate) fn push_char(s: &mut String, c: char)
    ensures
        final(s)@ == old(s)@ + seq![c],
{
    s.push(c);
}

/// Appends the character for one decimal digit value.
pub(crate) fn push_digit(s: &mut String, d: u32)
    requires
        d < 10,
    ensures
        final(s)@ == old(s)@ + seq![digit_char(d as int)],
{
    let c: char = match d {
        0 => '0',
        1 => '1',
        2 => '2',
        3 => '3',
        4 => '4',
        5 => '5',
        6 => '6',
        7 => '7',
        8 => '8',
        _ => '9',
    };
    push_char(s, c);
}

/// Appends a two-digit zero-padded number.
pub(crate) fn push_pad2(s: &mut String, n: u32)
    requires
        n < 100,
    ensures
        final(s)@ == old(s)@ + dec2(n as int),
{
    push_digit(s, n / 10);
    push_digit(s, n % 10);
    proof {
        assert(final(s)@ =~= old(s)@ + dec2(n as int));
    }
}

/// Appends a three-digit zero-padded number.
pub(crate) fn push_pad3(s: &mut String, n: u32)
    requires
        n < 1000,
    ensures
        final(s)@ == old(s)@ + dec3(n as int),
{
    push_digit(s, n / 100);
    push_digit(s, (n / 10) % 10);
    push_digit(s, n % 10);
    proof {
        assert(final(s)@ =~= old(s)@ + dec3(n as int));
    }
}

/// Appends the minimal decimal rendering of a non-negative number.
pub(crate) fn push_u64_dec(s: &mut String, n: u64)
    ensures
        final(s)@ == old(s)@ + dec_nat(n as int),
    decreases n,
{
    if n < 10 {
        push_digit(s, n as u32);
    } else {
        push_u64_dec(s, n / 10);
        push_digit(s, (n % 10) as u32);
        proof {
            assert(final(s)@ =~= old(s)@ + dec_nat(n as int));
        }
    }
}

/// The minimal decimal rendering of a signed number.
pub fn format_i64(n: i64) -> (r: String)
    ensures
        r@ == dec_int(n as int),
{
    let mut s = String::new();
    if n >= 0 {
        push_u64_dec(&mut s, n as u64);
    } else {
        push_char(&mut s, '-');
        let mag: u64 = (-(n + 1)) as u64 + 1;
        push_u64_dec(&mut s, mag);
        proof {
            assert(s@ =~= seq!['-'] + dec_nat(-(n as int)));
        }
    }
    s
}

/// The value of a digit character, or nothing for any other character.
pub(crate) fn digit_of(c: char) -> (r: Option<u32>)
    ensures
        match r {
            Some(d) => is_digit(c) && d == digit_value(c) && d < 10,
            None => !is_digit(c),
        },
{
    match c {
        '0' => Some(0),
        '1' => Some(1),
        '2' => Some(2),
        '3' => Some(3),
        '4' => Some(4),
        '5' => Some(5),
        '6' => Some(6),
        '7' => Some(7),
        '8' => Some(8),
        '9' => Some(9),
        _ => None,
    }
}

/// Ten to the given power.
pub open spec fn pow10(w: int) -> int
    decreases w,
{
    if w <= 0 {
        1
    } else {
        10 * pow10(w - 1)
    }
}

/// Reads a fixed-width zero-padded number out of a text.
pub(crate) fn read_fixed(s: &str, pos: usize, w: usize) -> (r: Option<u32>)
    requires
        pos + w <= s@.len(),
        s@.len() <= usize::MAX,
        1 <= w <= 4,
    ensures
        match r {
            Some(v) => {
                &&& all_digits(s@.subrange(pos as int, pos + w))
                &&& v == digits_value(s@.subrange(pos as int, pos + w))
                &&& v < pow10(w as int)
            },
            None => !all_digits(s@.subrange(pos as int, pos + w)),
        },
{
    let ghost sub = s@.subrange(pos as int, pos + w);
    let mut acc: u32 = 0;
    let mut j: usize = 0;
    proof {
        reveal_with_fuel(pow10, 5);
        assert(sub.take(0) =~= Seq::<char>::empty());
    }
    while j < w
        invariant
            0 <= j <= w <= 4,
            pos + w <= s@.len(),
            s@.len() <= usize::MAX,
            sub == s@.subrange(pos as int, pos + w),
            all_digits(sub.take(j as int)),
            acc == digits_value(sub.take(j as int)),
            acc < pow10(j as int),
            pow10(j as int) <= 10000,
        decreases w - j,
    {
        proof {
            reveal_with_fuel(pow10, 5);
        }
        let c = s.get_char(pos + j);
        proof {
            assert(sub[j as int] == s@[pos + j]);
        }
        match digit_of(c) {
            Some(d) => {
                proof {
                    lemma_digits_value_step(sub, j as int);
                }
                acc = acc * 10 + d;
                j = j + 1;
            },
            None => {
                return None;
            },
        }
    }
    proof {
        assert(sub.take(w as int) =~= sub);
    }
    Some(acc)
}

/// Reads a signed decimal number, rejecting any text that is not an
/// optionally negated digit run or whose value does not fit the result type.
pub fn parse_i64(s: &str) -> (r: Option<i64>)
    ensures
        match r {
            Some(n) => {
                &&& is_decimal_int(s@)
                &&& decimal_value(s@) == n as int
            },
            None => !(is_decimal_int(s@) && i64::MIN <= decimal_value(s@) <= i64::MAX),
        },
{
    let len = s.unicode_len();
    if len == 0 {
        return None;
    }
    let negative = s.get_char(0) == '-';
    let start: usize = if negative {
        1
    } else {
        0
    };
    if len <= start {
        return None;
    }
    let ghost digits = if negative {
        s@.skip(1)
    } else {
        s@
    };
    let limit: u64 = if negative {
        9223372036854775808
    } else {
        9223372036854775807
    };
    let mut acc: u64 = 0;
    let mut i: usize = start;
    proof {
        assert(digits.take(0) =~= Seq::<char>::empty());
    }
    while i < len
        invariant
            start <= i <= len,
            len == s@.len(),
            start == if negative {
                1int
            } else {
                0int
            },
            negative ==> s@[0] == '-' && digits =~= s@.skip(1),
            !negative ==> s@[0] != '-' && digits =~= s@,
            limit == if negative {
                9223372036854775808u64
            } else {
                9223372036854775807u64
            },
            all_digits(digits.take(i - start)),
            acc == digits_value(digits.take(i - start)),
            acc <= limit,
        decreases len - i,
    {
        let c = s.get_char(i);
        proof {
            assert(digits[i - start] == s@[i as int]);
        }
        let d: u64 = match digit_of(c) {
            Some(v) => v as u64,
            None => {
                proof {
                    if negative {
                        assert(s@.skip(1)[i - 1] == s@[i as int]);
                    }
                }
                return None;
            },
        };
        proof {
            lemma_digits_value_step(digits, i - start);
        }
        if acc > (limit - d) / 10 {
            proof {
                assert(acc * 10 + d > limit) by (nonlinear_arith)
                    requires
                        acc > (limit - d) / 10,
                        d < 10,
                        limit >= d,
                ;
                lemma_digits_prefix_le(digits, i - start + 1);
            }
            return None;
        }
        acc = acc * 10 + d;
        i = i + 1;
    }
    proof {
        assert(digits.take(len - start) =~= digits);
    }
    if negative {
        if acc == 9223372036854775808 {
            Some(i64::MIN)
        } else {
            Some(-(acc as i64))
        }
    } else {
        Some(acc as i64)
    }
}

/// Appends a four-digit zero-padded number.
pub(crate) fn push_pad4(s: &mut String, n: u32)
    requires
        n < 10000,
    ensures
        final(s)@ == old(s)@ + dec4(n as int),
{
    push_digit(s, n / 1000);
    push_digit(s, (n / 100) % 10);
    push_digit(s, (n / 10) % 10);
    push_digit(s, n % 10);
    proof {
        assert(final(s)@ =~= old(s)@ + dec4(n as int));
    }
}

} // verus!
