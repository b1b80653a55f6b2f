use vstd::prelude::*;
use vstd::string::*;

use crate::date::{date, spec_date, Date};
use crate::input::{
    char_at_is, line_at, line_number, outcome_of, scan, span, spec_whitespace, text, whitespace,
    within, CharClass, Expected, Outcome, PResult, ParseError,
};

verus! {

/// Whether a transaction has cleared.
#[derive(Clone, Copy, Debug, PartialEq, Eq, Structural)]
pub enum TransactionStatus {
    Cleared,
    Uncleared,
}

impl DeepView for TransactionStatus {
    type V = TransactionStatus;

    open spec fn deep_view(&self) -> TransactionStatus {
        *self
    }
}

/// The first line of a transaction.
#[derive(Debug, PartialEq, Eq)]
pub struct Header {
    pub line_number: usize,
    pub date: Date,
    pub status: TransactionStatus,
    pub code: Option<String>,
    pub payee: String,
    pub comment: Option<String>,
}

pub struct HeaderModel {
    pub line_number: int,
    pub date: Date,
    pub status: TransactionStatus,
    pub code: Option<Seq<char>>,
    pub payee: Seq<char>,
    pub comment: Option<Seq<char>>,
}

impl DeepView for Header {
    type V = HeaderModel;

    open spec fn deep_view(&self) -> HeaderModel {
        HeaderModel {
            line_number: self.line_number as int,
            date: self.date,
            status: self.status,
            code: self.code.deep_view(),
            payee: self.payee@,
            comment: self.comment.deep_view(),
        }
    }
}

/// An optional part: absent where it failed without getting past `pos`.
pub open spec fn optional<V>(o: Outcome<V>, pos: int) -> Outcome<Option<V>> {
    match o {
        Ok((v, e)) => Ok((Some(v), e)),
        Err((p, x)) => if p == pos {
            Ok((None, pos))
        } else {
            Err((p, x))
        },
    }
}

/// `*` for cleared, `!` for uncleared.
pub open spec fn spec_status(s: Seq<char>, pos: int) -> Outcome<TransactionStatus> {
    if pos < s.len() && s[pos] == '*' {
        Ok((TransactionStatus::Cleared, pos + 1))
    } else if pos < s.len() && s[pos] == '!' {
        Ok((TransactionStatus::Uncleared, pos + 1))
    } else {
        Err((pos, Expected::Status))
    }
}

/// Parses the status mark of a transaction.
pub fn status(s: &str, pos: usize) -> (r: PResult<TransactionStatus>)
    requires
        pos <= s@.len(),
    ensures
        outcome_of(r) == spec_status(s@, pos as int),
        within(r, pos as int, s@.len() as int),
{
    if char_at_is(s, pos, '*') {
        Ok((TransactionStatus::Cleared, pos + 1))
    } else if char_at_is(s, pos, '!') {
        Ok((TransactionStatus::Uncleared, pos + 1))
    } else {
        Err(ParseError { position: pos, expected: Expected::Status })
    }
}

/// `(`, any characters but `)` and line breaks, then `)`.
pub open spec fn spec_code(s: Seq<char>, pos: int) -> Outcome<Seq<char>> {
    if !(pos < s.len() && s[pos] == '(') {
        Err((pos, Expected::Char('(')))
    } else {
        let e = span(s, pos + 1, CharClass::CodeText);
        if !(e < s.len() && s[e] == ')') {
            Err((e, Expected::Char(')')))
        } else {
            Ok((s.subrange(pos + 1, e), e + 1))
        }
    }
}

/// Parses a transaction code in parentheses, which may be empty.
pub fn code(s: &str, pos: usize) -> (r: PResult<String>)
    requires
        pos <= s@.len(),
    ensures
        outcome_of(r) == spec_code(s@, pos as int),
        within(r, pos as int, s@.len() as int),
{
    if !char_at_is(s, pos, '(') {
        return Err(ParseError { position: pos, expected: Expected::Char('(') });
    }
    let e = scan(s, pos + 1, CharClass::CodeText);
    if !char_at_is(s, e, ')') {
        return Err(ParseError { position: e, expected: Expected::Char(')') });
    }
    Ok((text(s, pos + 1, e), e + 1))
}

/// One or more characters other than `;` and line breaks, kept as written.
pub open spec fn spec_payee(s: Seq<char>, pos: int) -> Outcome<Seq<char>> {
    let e = span(s, pos, CharClass::PayeeText);
    if e == pos {
        Err((pos, Expected::Class(CharClass::PayeeText)))
    } else {
        Ok((s.subrange(pos, e), e))
    }
}

/// Parses a payee; blanks before a following comment belong to it.
pub fn payee(s: &str, pos: usize) -> (r: PResult<String>)
    requires
        pos <= s@.len(),
    ensures
        outcome_of(r) == spec_payee(s@, pos as int),
        within(r, pos as int, s@.len() as int),
{
    let e = scan(s, pos, CharClass::PayeeText);
    if e == pos {
        Err(ParseError { position: pos, expected: Expected::Class(CharClass::PayeeText) })
    } else {
        Ok((text(s, pos, e), e))
    }
}

/// `;` and the rest of the line.
pub open spec fn spec_comment(s: Seq<char>, pos: int) -> Outcome<Seq<char>> {
    if !(pos < s.len() && s[pos] == ';') {
        Err((pos, Expected::Char(';')))
    } else {
        let e = span(s, pos + 1, CharClass::CommentText);
        Ok((s.subrange(pos + 1, e), e))
    }
}

/// Parses a comment and returns what follows its `;`, leading blanks included.
pub fn comment(s: &str, pos: usize) -> (r: PResult<String>)
    requires
        pos <= s@.len(),
    ensures
        outcome_of(r) == spec_comment(s@, pos as int),
        within(r, pos as int, s@.len() as int),
{
    if !char_at_is(s, pos, ';') {
        return Err(ParseError { position: pos, expected: Expected::Char(';') });
    }
    let e = scan(s, pos + 1, CharClass::CommentText);
    Ok((text(s, pos + 1, e), e))
}

/// An optional code, which must then be followed by blanks.
pub open spec fn spec_code_clause(s: Seq<char>, pos: int) -> Outcome<Option<Seq<char>>> {
    match optional(spec_code(s, pos), pos) {
        Ok((Some(c), e)) => match spec_whitespace(s, e) {
            Ok((_, e2)) => Ok((Some(c), e2)),
            Err(f) => Err(f),
        },
        other => other,
    }
}

/// The payee and an optional comment after it.
pub open spec fn spec_payee_and_comment(s: Seq<char>, pos: int) -> Outcome<
    (Seq<char>, Option<Seq<char>>),
> {
    match spec_payee(s, pos) {
        Err(f) => Err(f),
        Ok((p, e)) => match optional(spec_comment(s, e), e) {
            Err(f) => Err(f),
            Ok((c, e2)) => Ok(((p, c), e2)),
        },
    }
}

/// Date, blanks, status, blanks, an optional code with blanks after it,
/// the payee and an optional comment; the line number is that of `pos`.
pub open spec fn spec_header(s: Seq<char>, pos: int) -> Outcome<HeaderModel> {
    match spec_date(s, pos) {
        Err(f) => Err(f),
        Ok((d, at1)) => match spec_whitespace(s, at1) {
            Err(f) => Err(f),
            Ok((_, at2)) => match spec_status(s, at2) {
                Err(f) => Err(f),
                Ok((st, at3)) => match spec_whitespace(s, at3) {
                    Err(f) => Err(f),
                    Ok((_, at4)) => match spec_code_clause(s, at4) {
                        Err(f) => Err(f),
                        Ok((c, at5)) => match spec_payee_and_comment(s, at5) {
                            Err(f) => Err(f),
                            Ok(((p, cm), e)) => Ok(
                                (
                                    HeaderModel {
                                        line_number: line_at(s, pos) as int,
                                        date: d,
                                        status: st,
                                        code: c,
                                        payee: p,
                                        comment: cm,
                                    },
                                    e,
                                ),
                            ),
                        },
                    },
                },
            },
        },
    }
}

/// Parses a transaction header such as `2015-10-20 * (conf# 1) Payee ;note`.
pub fn header(s: &str, pos: usize) -> (r: PResult<Header>)
    requires
        pos <= s@.len(),
        s@.len() < usize::MAX,
    ensures
        outcome_of(r) == spec_header(s@, pos as int),
        within(r, pos as int, s@.len() as int),
{
    let (line, _) = match line_number(s, pos) {
        Ok(found) => found,
        Err(f) => return Err(f),
    };
    let (d, at1) = match date(s, pos) {
        Ok(found) => found,
        Err(f) => return Err(f),
    };
    let at2 = match whitespace(s, at1) {
        Ok((_, e)) => e,
        Err(f) => return Err(f),
    };
    let (st, at3) = match status(s, at2) {
        Ok(found) => found,
        Err(f) => return Err(f),
    };
    let at4 = match whitespace(s, at3) {
        Ok((_, e)) => e,
        Err(f) => return Err(f),
    };
    let (c, at5) = match code(s, at4) {
        Ok((c, e)) => match whitespace(s, e) {
            Ok((_, e2)) => (Some(c), e2),
            Err(f) => return Err(f),
        },
        Err(f) => {
            if f.position != at4 {
                return Err(f);
            }
            (None, at4)
        },
    };
    let (p, at6) = match payee(s, at5) {
        Ok(found) => found,
        Err(f) => return Err(f),
    };
    let (cm, e) = match comment(s, at6) {
        Ok((cm, e)) => (Some(cm), e),
        Err(f) => {
            if f.position != at6 {
                return Err(f);
            }
            (None, at6)
        },
    };
    Ok(
        (
            Header { line_number: line, date: d, status: st, code: c, payee: p, comment: cm },
            e,
        ),
    )
}

} // verus!
