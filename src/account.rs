use vstd::prelude::*;
use vstd::string::*;

use crate::input::{
    char_at_is, lemma_span, outcome_of, scan, span, text, within, CharClass, Expected, Outcome,
    PResult, ParseError,
};

verus! {

/// One or more letters or digits.
pub open spec fn spec_sub_account(s: Seq<char>, pos: int) -> Outcome<Seq<char>> {
    let e = span(s, pos, CharClass::AlphaNumeric);
    if e == pos {
        Err((pos, Expected::Class(CharClass::AlphaNumeric)))
    } else {
        Ok((s.subrange(pos, e), e))
    }
}

/// Parses one segment of an account name.
pub fn sub_account(s: &str, pos: usize) -> (r: PResult<String>)
    requires
        pos <= s@.len(),
    ensures
        outcome_of(r) == spec_sub_account(s@, pos as int),
        within(r, pos as int, s@.len() as int),
{
    let e = scan(s, pos, CharClass::AlphaNumeric);
    if e == pos {
        Err(ParseError { position: pos, expected: Expected::Class(CharClass::AlphaNumeric) })
    } else {
        Ok((text(s, pos, e), e))
    }
}

/// Segments joined by `:`, at least one; a `:` must be followed by a segment.
pub open spec fn spec_account(s: Seq<char>, pos: int) -> Outcome<Seq<Seq<char>>>
    decreases s.len() - pos,
    when 0 <= pos <= s.len()
{
    match spec_sub_account(s, pos) {
        Err(f) => Err(f),
        Ok((seg, e)) => if e < s.len() && s[e] == ':' {
            proof {
                lemma_span(s, pos, CharClass::AlphaNumeric);
            }
            match spec_account(s, e + 1) {
                Err(f) => Err(f),
                Ok((rest, end)) => Ok((seq![seg] + rest, end)),
            }
        } else {
            Ok((seq![seg], e))
        },
    }
}

/// Parses an account name such as `Expenses:Food:Groceries` into its
/// segments, root first.
pub fn account(s: &str, pos: usize) -> (r: PResult<Vec<String>>)
    requires
        pos <= s@.len(),
    ensures
        outcome_of(r) == spec_account(s@, pos as int),
        within(r, pos as int, s@.len() as int),
    decreases s@.len() - pos,
{
    let (seg, e) = match sub_account(s, pos) {
        Ok(found) => found,
        Err(f) => return Err(f),
    };
    if char_at_is(s, e, ':') {
        match account(s, e + 1) {
            Err(f) => Err(f),
            Ok((rest, end)) => {
                let mut all = rest;
                all.insert(0, seg);
                proof {
                    let model = spec_sub_account(s@, pos as int)->Ok_0.0;
                    assert(all.deep_view() =~= seq![model] + rest.deep_view());
                }
                Ok((all, end))
            },
        }
    } else {
        let mut all: Vec<String> = Vec::new();
        all.push(seg);
        proof {
            assert(all.deep_view() =~= seq![seg@]);
        }
        Ok((all, e))
    }
}

} // verus!
