use vstd::prelude::*;
use vstd::string::*;

use crate::input::{
    char_at_is, digit_at, is_digit, lemma_span, outcome_of, outcome_within, scan, span, within,
    CharClass, Expected, Outcome, PResult, ParseError,
};

verus! {

/// A calendar date as written; month and day are not checked against the calendar.
#[derive(Clone, Copy, Debug, PartialEq, Eq, Structural)]
pub struct Date {
    pub year: i32,
    pub month: i32,
    pub day: i32,
}

impl DeepView for Date {
    type V = Date;

    open spec fn deep_view(&self) -> Date {
        *self
    }
}

/// The value of a decimal digit.
pub open spec fn digit_value(c: char) -> int {
    c as u32 - '0' as u32
}

/// The value of a string of decimal digits, most significant first.
pub open spec fn decimal_value(q: Seq<char>) -> int
    decreases q.len(),
{
    if q.len() == 0 {
        0
    } else {
        decimal_value(q.drop_last()) * 10 + digit_value(q.last())
    }
}

/// Within a string of digits, a prefix never has a greater value than the whole.
proof fn lemma_decimal_value_prefix(q: Seq<char>, k: int)
    requires
        0 <= k <= q.len(),
        forall|i: int| 0 <= i < q.len() ==> is_digit(#[trigger] q[i]),
    ensures
        0 <= decimal_value(q.subrange(0, k)) <= decimal_value(q),
    decreases q.len(),
{
    if q.len() > 0 {
        let rest = q.drop_last();
        let k2 = if k < q.len() { k } else { q.len() - 1 };
        lemma_decimal_value_prefix(rest, k2);
        assert(rest.subrange(0, rest.len() as int) =~= rest);
        if k < q.len() {
            assert(rest.subrange(0, k) =~= q.subrange(0, k));
        } else {
            assert(q.subrange(0, k) =~= q);
        }
    }
}

/// Converts two digit characters, tens first, to their value.
pub fn two_digits_to_int(pair: (char, char)) -> (r: i32)
    requires
        is_digit(pair.0),
        is_digit(pair.1),
    ensures
        r == digit_value(pair.0) * 10 + digit_value(pair.1),
{
    let (x, y) = pair;
    let tens = (x as u32 - '0' as u32) as i32;
    let ones = (y as u32 - '0' as u32) as i32;
    tens * 10 + ones
}

/// Exactly two digits, read as a number from 0 to 99.
pub open spec fn spec_two_digits(s: Seq<char>, pos: int) -> Outcome<i32> {
    if !(pos < s.len() && is_digit(s[pos])) {
        Err((pos, Expected::Class(CharClass::Digit)))
    } else if !(pos + 1 < s.len() && is_digit(s[pos + 1])) {
        Err((pos + 1, Expected::Class(CharClass::Digit)))
    } else {
        Ok(((digit_value(s[pos]) * 10 + digit_value(s[pos + 1])) as i32, pos + 2))
    }
}

/// Two digits give their exact value, from 0 to 99; a single digit, or a
/// character other than a digit in either place, is refused.
pub proof fn lemma_two_digits_exact(s: Seq<char>, pos: int)
    requires
        0 <= pos <= s.len(),
    ensures
        spec_two_digits(s, pos) is Ok <==> (pos + 1 < s.len() && is_digit(s[pos]) && is_digit(
            s[pos + 1],
        )),
        spec_two_digits(s, pos) is Ok ==> {
            let v = spec_two_digits(s, pos)->Ok_0.0;
            &&& v == digit_value(s[pos]) * 10 + digit_value(s[pos + 1])
            &&& 0 <= v <= 99
            &&& spec_two_digits(s, pos)->Ok_0.1 == pos + 2
        },
{
}

/// Parses exactly two digits, such as the month or the day of a date.
pub fn two_digits(s: &str, pos: usize) -> (r: PResult<i32>)
    requires
        pos <= s@.len(),
    ensures
        outcome_of(r) == spec_two_digits(s@, pos as int),
        within(r, pos as int, s@.len() as int),
{
    if !digit_at(s, pos) {
        return Err(ParseError { position: pos, expected: Expected::Class(CharClass::Digit) });
    }
    if !digit_at(s, pos + 1) {
        return Err(ParseError { position: pos + 1, expected: Expected::Class(CharClass::Digit) });
    }
    let v = two_digits_to_int((s.get_char(pos), s.get_char(pos + 1)));
    Ok((v, pos + 2))
}

/// One or more digits for the year, `-`, two digits, `-`, two digits. A
/// year beyond `i32::MAX` fails where the year begins, once the rest has been read.
pub open spec fn spec_date(s: Seq<char>, pos: int) -> Outcome<Date> {
    let e = span(s, pos, CharClass::Digit);
    if e == pos {
        Err((pos, Expected::Class(CharClass::Digit)))
    } else if !(e < s.len() && s[e] == '-') {
        Err((e, Expected::Char('-')))
    } else {
        match spec_two_digits(s, e + 1) {
            Err(f) => Err(f),
            Ok((month, at1)) => if !(at1 < s.len() && s[at1] == '-') {
                Err((at1, Expected::Char('-')))
            } else {
                match spec_two_digits(s, at1 + 1) {
                    Err(f) => Err(f),
                    Ok((day, at2)) => {
                        let year = decimal_value(s.subrange(pos, e));
                        if year > i32::MAX {
                            Err((pos, Expected::YearInRange))
                        } else {
                            Ok((Date { year: year as i32, month, day }, at2))
                        }
                    },
                }
            },
        }
    }
}

pub proof fn lemma_date_within(s: Seq<char>, pos: int)
    requires
        0 <= pos <= s.len(),
    ensures
        outcome_within(spec_date(s, pos), pos, s.len() as int),
{
    lemma_span(s, pos, CharClass::Digit);
}

/// The value of the digits from `from` up to `to`, if it fits in an `i32`.
fn year_value(s: &str, from: usize, to: usize) -> (r: Option<i32>)
    requires
        from <= to <= s@.len(),
        forall|i: int| from <= i < to ==> is_digit(#[trigger] s@[i]),
    ensures
        match r {
            Some(y) => y == decimal_value(s@.subrange(from as int, to as int)),
            None => decimal_value(s@.subrange(from as int, to as int)) > i32::MAX,
        },
{
    let ghost whole = s@.subrange(from as int, to as int);
    let mut acc: i64 = 0;
    let mut i: usize = from;
    proof {
        assert(whole.subrange(0, 0) =~= Seq::<char>::empty());
    }
    while i < to
        invariant
            from <= i <= to <= s@.len(),
            whole == s@.subrange(from as int, to as int),
            forall|j: int| from <= j < to ==> is_digit(#[trigger] s@[j]),
            0 <= acc <= i32::MAX,
            acc == decimal_value(whole.subrange(0, i - from)),
        decreases to - i,
    {
        let c = s.get_char(i);
        let d = (c as u32 - '0' as u32) as i64;
        let next = acc * 10 + d;
        proof {
            let prefix = whole.subrange(0, i + 1 - from);
            assert(prefix.drop_last() =~= whole.subrange(0, i - from));
            assert(prefix.last() == c);
            assert(next == decimal_value(prefix));
        }
        if next > i32::MAX as i64 {
            proof {
                assert forall|j: int| 0 <= j < whole.len() implies is_digit(#[trigger] whole[j]) by {
                    assert(whole[j] == s@[from + j]);
                }
                lemma_decimal_value_prefix(whole, i + 1 - from);
            }
            return None;
        }
        acc = next;
        i = i + 1;
    }
    proof {
        assert(whole.subrange(0, to - from) =~= whole);
    }
    Some(acc as i32)
}

/// Parses a date such as `2015-10-17`.
pub fn date(s: &str, pos: usize) -> (r: PResult<Date>)
    requires
        pos <= s@.len(),
    ensures
        outcome_of(r) == spec_date(s@, pos as int),
        within(r, pos as int, s@.len() as int),
{
    proof {
        lemma_span(s@, pos as int, CharClass::Digit);
    }
    let e = scan(s, pos, CharClass::Digit);
    if e == pos {
        return Err(ParseError { position: pos, expected: Expected::Class(CharClass::Digit) });
    }
    if !char_at_is(s, e, '-') {
        return Err(ParseError { position: e, expected: Expected::Char('-') });
    }
    let (month, at1) = match two_digits(s, e + 1) {
        Ok(found) => found,
        Err(f) => return Err(f),
    };
    if !char_at_is(s, at1, '-') {
        return Err(ParseError { position: at1, expected: Expected::Char('-') });
    }
    let (day, at2) = match two_digits(s, at1 + 1) {
        Ok(found) => found,
        Err(f) => return Err(f),
    };
    match year_value(s, pos, e) {
        Some(year) => Ok((Date { year, month, day }, at2)),
        None => Err(ParseError { position: pos, expected: Expected::YearInRange }),
    }
}

} // verus!
