use vstd::prelude::*;
use vstd::string::*;

use crate::input::{
    char_at_is, choice, digit_at, in_class, is_digit, lemma_span, outcome_of, outcome_within,
    scan, span, text, within, CharClass, Expected, Outcome, PResult, ParseError,
};

verus! {

/// Where the symbol stands relative to the quantity, and whether blanks part them.
#[derive(Clone, Copy, Debug, PartialEq, Eq, Structural)]
pub enum AmountFormat {
    SymbolLeftNoSpace,
    SymbolLeftWithSpace,
    SymbolRightNoSpace,
    SymbolRightWithSpace,
}

/// A currency or security identifier, and whether it was written in quotes.
#[derive(Debug, PartialEq, Eq)]
pub struct Symbol {
    pub value: String,
    pub quoted: bool,
}

/// A quantity in its normalized decimal text, with its symbol and layout.
#[derive(Debug, PartialEq, Eq)]
pub struct Amount {
    pub value: String,
    pub symbol: Symbol,
    pub format: AmountFormat,
}

pub struct SymbolModel {
    pub value: Seq<char>,
    pub quoted: bool,
}

pub struct AmountModel {
    pub value: Seq<char>,
    pub symbol: SymbolModel,
    pub format: AmountFormat,
}

impl DeepView for AmountFormat {
    type V = AmountFormat;

    open spec fn deep_view(&self) -> AmountFormat {
        *self
    }
}

impl DeepView for Symbol {
    type V = SymbolModel;

    open spec fn deep_view(&self) -> SymbolModel {
        SymbolModel { value: self.value@, quoted: self.quoted }
    }
}

impl DeepView for Amount {
    type V = AmountModel;

    open spec fn deep_view(&self) -> AmountModel {
        AmountModel { value: self.value@, symbol: self.symbol.deep_view(), format: self.format }
    }
}

/// The text with every `,` taken out and all else kept in order.
pub open spec fn without_grouping(q: Seq<char>) -> Seq<char>
    decreases q.len(),
{
    if q.len() == 0 {
        q
    } else if q.last() == ',' {
        without_grouping(q.drop_last())
    } else {
        without_grouping(q.drop_last()).push(q.last())
    }
}

/// An optional `-`, one digit, then digits, `,` and `.`; the value is that
/// text without its `,`.
pub open spec fn spec_quantity(s: Seq<char>, pos: int) -> Outcome<Seq<char>> {
    let d = if pos < s.len() && s[pos] == '-' { pos + 1 } else { pos };
    if d < s.len() && is_digit(s[d]) {
        let e = span(s, d + 1, CharClass::QuantityText);
        Ok((without_grouping(s.subrange(pos, e)), e))
    } else {
        Err((d, Expected::Class(CharClass::Digit)))
    }
}

/// The characters of `s` from `from` up to `to`, without any `,`.
fn grouping_stripped(s: &str, from: usize, to: usize) -> (r: String)
    requires
        from <= to <= s@.len(),
    ensures
        r@ == without_grouping(s@.subrange(from as int, to as int)),
{
    let mut out = String::new();
    let mut i: usize = from;
    proof {
        assert(s@.subrange(from as int, from as int) =~= Seq::<char>::empty());
    }
    while i < to
        invariant
            from <= i <= to <= s@.len(),
            out@ == without_grouping(s@.subrange(from as int, i as int)),
        decreases to - i,
    {
        let c = s.get_char(i);
        proof {
            let next = s@.subrange(from as int, i + 1);
            assert(next.drop_last() =~= s@.subrange(from as int, i as int));
            assert(next.last() == c);
        }
        if c != ',' {
            let one = s.substring_char(i, i + 1);
            proof {
                assert(one@ =~= seq![c]);
            }
            out.append(one);
            proof {
                assert(out@ =~= without_grouping(s@.subrange(from as int, i as int)).push(c));
            }
        }
        i = i + 1;
    }
    out
}

proof fn lemma_without_grouping_concat(a: Seq<char>, b: Seq<char>)
    ensures
        without_grouping(a + b) == without_grouping(a) + without_grouping(b),
    decreases b.len(),
{
    if b.len() == 0 {
        assert(a + b =~= a);
        assert(without_grouping(a) + without_grouping(b) =~= without_grouping(a));
    } else {
        assert((a + b).drop_last() =~= a + b.drop_last());
        lemma_without_grouping_concat(a, b.drop_last());
        if b.last() != ',' {
            assert(without_grouping(a) + without_grouping(b.drop_last()).push(b.last())
                =~= (without_grouping(a) + without_grouping(b.drop_last())).push(b.last()));
        }
    }
}

/// What remains after the `,` are taken out holds no `,`, and only
/// characters of the class that all of the text was in.
proof fn lemma_without_grouping_chars(q: Seq<char>, k: CharClass)
    requires
        forall|i: int| 0 <= i < q.len() ==> in_class(#[trigger] q[i], k),
    ensures
        forall|i: int|
            0 <= i < without_grouping(q).len() ==> #[trigger] without_grouping(q)[i] != ','
                && in_class(without_grouping(q)[i], k),
    decreases q.len(),
{
    if q.len() > 0 {
        let rest = q.drop_last();
        assert forall|i: int| 0 <= i < rest.len() implies in_class(#[trigger] rest[i], k) by {
            assert(rest[i] == q[i]);
        }
        lemma_without_grouping_chars(rest, k);
        let w = without_grouping(rest);
        assert(in_class(q.last(), k));
        if q.last() != ',' {
            assert forall|i: int| 0 <= i < w.push(q.last()).len() implies #[trigger] w.push(
                q.last(),
            )[i] != ',' && in_class(w.push(q.last())[i], k) by {
                if i < w.len() {
                    assert(w.push(q.last())[i] == w[i]);
                }
            }
        }
    }
}

proof fn lemma_without_grouping_unchanged(q: Seq<char>)
    requires
        forall|i: int| 0 <= i < q.len() ==> #[trigger] q[i] != ',',
    ensures
        without_grouping(q) == q,
    decreases q.len(),
{
    if q.len() > 0 {
        lemma_without_grouping_unchanged(q.drop_last());
        assert(q.drop_last().push(q.last()) =~= q);
    }
}

proof fn lemma_span_to_end(s: Seq<char>, pos: int, k: CharClass)
    requires
        0 <= pos <= s.len(),
        forall|i: int| pos <= i < s.len() ==> in_class(#[trigger] s[i], k),
    ensures
        span(s, pos, k) == s.len(),
    decreases s.len() - pos,
{
    if pos < s.len() {
        lemma_span_to_end(s, pos + 1, k);
    }
}

/// Normalizing is idempotent: the text that a quantity parse returns parses
/// again, whole, as that very text.
pub proof fn lemma_quantity_idempotent(s: Seq<char>, pos: int)
    requires
        0 <= pos <= s.len(),
        spec_quantity(s, pos) is Ok,
    ensures
        ({
            let q = spec_quantity(s, pos)->Ok_0.0;
            spec_quantity(q, 0) == Ok::<(Seq<char>, int), (int, Expected)>((q, q.len() as int))
        }),
{
    let d = if s[pos] == '-' { pos + 1 } else { pos };
    let e = span(s, d + 1, CharClass::QuantityText);
    lemma_span(s, d + 1, CharClass::QuantityText);
    let head = s.subrange(pos, d + 1);
    let tail = s.subrange(d + 1, e);
    assert(s.subrange(pos, e) =~= head + tail);
    lemma_without_grouping_concat(head, tail);
    assert forall|i: int| 0 <= i < head.len() implies #[trigger] head[i] != ',' by {}
    lemma_without_grouping_unchanged(head);
    assert forall|i: int| 0 <= i < tail.len() implies in_class(
        #[trigger] tail[i],
        CharClass::QuantityText,
    ) by {
        assert(tail[i] == s[d + 1 + i]);
    }
    lemma_without_grouping_chars(tail, CharClass::QuantityText);
    let wt = without_grouping(tail);
    let q = head + wt;
    assert(spec_quantity(s, pos)->Ok_0.0 == q);
    let dq = d - pos;
    assert(q[dq] == s[d]);
    assert(dq == 0 ==> q[0] != '-');
    assert forall|i: int| dq + 1 <= i < q.len() implies in_class(
        #[trigger] q[i],
        CharClass::QuantityText,
    ) by {
        assert(q[i] == wt[i - dq - 1]);
    }
    lemma_span_to_end(q, dq + 1, CharClass::QuantityText);
    assert forall|i: int| 0 <= i < q.len() implies #[trigger] q[i] != ',' by {
        if i > dq {
            assert(q[i] == wt[i - dq - 1]);
        }
    }
    lemma_without_grouping_unchanged(q);
    assert(q.subrange(0, q.len() as int) =~= q);
}

/// Parses a signed decimal quantity and returns it with its `,` removed.
pub fn quantity(s: &str, pos: usize) -> (r: PResult<String>)
    requires
        pos <= s@.len(),
    ensures
        outcome_of(r) == spec_quantity(s@, pos as int),
        within(r, pos as int, s@.len() as int),
{
    let d = if char_at_is(s, pos, '-') {
        pos + 1
    } else {
        pos
    };
    if digit_at(s, d) {
        let e = scan(s, d + 1, CharClass::QuantityText);
        Ok((grouping_stripped(s, pos, e), e))
    } else {
        Err(ParseError { position: d, expected: Expected::Class(CharClass::Digit) })
    }
}

/// `"`, one or more characters other than `"` and line breaks, then `"`.
pub open spec fn spec_quoted_symbol(s: Seq<char>, pos: int) -> Outcome<SymbolModel> {
    if !(pos < s.len() && s[pos] == '"') {
        Err((pos, Expected::Char('"')))
    } else {
        let e = span(s, pos + 1, CharClass::QuotedText);
        if e == pos + 1 {
            Err((pos + 1, Expected::Class(CharClass::QuotedText)))
        } else if !(e < s.len() && s[e] == '"') {
            Err((e, Expected::Char('"')))
        } else {
            Ok((SymbolModel { value: s.subrange(pos + 1, e), quoted: true }, e + 1))
        }
    }
}

/// Parses a symbol in double quotes; the quotes are not part of its value.
pub fn quoted_symbol(s: &str, pos: usize) -> (r: PResult<Symbol>)
    requires
        pos <= s@.len(),
    ensures
        outcome_of(r) == spec_quoted_symbol(s@, pos as int),
        within(r, pos as int, s@.len() as int),
{
    if !char_at_is(s, pos, '"') {
        return Err(ParseError { position: pos, expected: Expected::Char('"') });
    }
    let e = scan(s, pos + 1, CharClass::QuotedText);
    if e == pos + 1 {
        return Err(
            ParseError { position: pos + 1, expected: Expected::Class(CharClass::QuotedText) },
        );
    }
    if !char_at_is(s, e, '"') {
        return Err(ParseError { position: e, expected: Expected::Char('"') });
    }
    Ok((Symbol { value: text(s, pos + 1, e), quoted: true }, e + 1))
}

/// One or more characters that can neither begin a quantity nor end a field.
pub open spec fn spec_unquoted_symbol(s: Seq<char>, pos: int) -> Outcome<SymbolModel> {
    let e = span(s, pos, CharClass::UnquotedText);
    if e == pos {
        Err((pos, Expected::Class(CharClass::UnquotedText)))
    } else {
        Ok((SymbolModel { value: s.subrange(pos, e), quoted: false }, e))
    }
}

/// Parses a bare symbol such as `$`, `US$` or `AAPL`.
pub fn unquoted_symbol(s: &str, pos: usize) -> (r: PResult<Symbol>)
    requires
        pos <= s@.len(),
    ensures
        outcome_of(r) == spec_unquoted_symbol(s@, pos as int),
        within(r, pos as int, s@.len() as int),
{
    let e = scan(s, pos, CharClass::UnquotedText);
    if e == pos {
        Err(ParseError { position: pos, expected: Expected::Class(CharClass::UnquotedText) })
    } else {
        Ok((Symbol { value: text(s, pos, e), quoted: false }, e))
    }
}

/// A quoted symbol, or else a bare one.
pub open spec fn spec_symbol(s: Seq<char>, pos: int) -> Outcome<SymbolModel> {
    choice(spec_quoted_symbol(s, pos), spec_unquoted_symbol(s, pos), pos, Expected::Symbol)
}

/// Parses a quoted symbol, or a bare one where no quote opens.
pub fn symbol(s: &str, pos: usize) -> (r: PResult<Symbol>)
    requires
        pos <= s@.len(),
    ensures
        outcome_of(r) == spec_symbol(s@, pos as int),
        within(r, pos as int, s@.len() as int),
{
    match quoted_symbol(s, pos) {
        Ok(found) => Ok(found),
        Err(e1) => {
            if e1.position != pos {
                return Err(e1);
            }
            match unquoted_symbol(s, pos) {
                Ok(found) => Ok(found),
                Err(e2) => {
                    if e2.position != pos {
                        Err(e2)
                    } else {
                        Err(ParseError { position: pos, expected: Expected::Symbol })
                    }
                },
            }
        },
    }
}

/// A symbol, optional blanks, then a quantity.
pub open spec fn spec_amount_symbol_then_quantity(s: Seq<char>, pos: int) -> Outcome<AmountModel> {
    match spec_symbol(s, pos) {
        Err(f) => Err(f),
        Ok((sym, at1)) => {
            let at2 = span(s, at1, CharClass::Blank);
            match spec_quantity(s, at2) {
                Err(f) => Err(f),
                Ok((q, e)) => Ok(
                    (
                        AmountModel {
                            value: q,
                            symbol: sym,
                            format: if at2 == at1 {
                                AmountFormat::SymbolLeftNoSpace
                            } else {
                                AmountFormat::SymbolLeftWithSpace
                            },
                        },
                        e,
                    ),
                ),
            }
        },
    }
}

/// Parses an amount written symbol first, such as `$13,245.00` or `$ 5`.
pub fn amount_symbol_then_quantity(s: &str, pos: usize) -> (r: PResult<Amount>)
    requires
        pos <= s@.len(),
    ensures
        outcome_of(r) == spec_amount_symbol_then_quantity(s@, pos as int),
        within(r, pos as int, s@.len() as int),
{
    let (sym, at1) = match symbol(s, pos) {
        Ok(found) => found,
        Err(e) => return Err(e),
    };
    let at2 = scan(s, at1, CharClass::Blank);
    let (q, e) = match quantity(s, at2) {
        Ok(found) => found,
        Err(e) => return Err(e),
    };
    let format = if at2 == at1 {
        AmountFormat::SymbolLeftNoSpace
    } else {
        AmountFormat::SymbolLeftWithSpace
    };
    Ok((Amount { value: q, symbol: sym, format }, e))
}

/// A quantity, optional blanks, then a symbol.
pub open spec fn spec_amount_quantity_then_symbol(s: Seq<char>, pos: int) -> Outcome<AmountModel> {
    match spec_quantity(s, pos) {
        Err(f) => Err(f),
        Ok((q, at1)) => {
            let at2 = span(s, at1, CharClass::Blank);
            match spec_symbol(s, at2) {
                Err(f) => Err(f),
                Ok((sym, e)) => Ok(
                    (
                        AmountModel {
                            value: q,
                            symbol: sym,
                            format: if at2 == at1 {
                                AmountFormat::SymbolRightNoSpace
                            } else {
                                AmountFormat::SymbolRightWithSpace
                            },
                        },
                        e,
                    ),
                ),
            }
        },
    }
}

/// Parses an amount written quantity first, such as `13,245.463 AAPL`.
pub fn amount_quantity_then_symbol(s: &str, pos: usize) -> (r: PResult<Amount>)
    requires
        pos <= s@.len(),
    ensures
        outcome_of(r) == spec_amount_quantity_then_symbol(s@, pos as int),
        within(r, pos as int, s@.len() as int),
{
    let (q, at1) = match quantity(s, pos) {
        Ok(found) => found,
        Err(e) => return Err(e),
    };
    let at2 = scan(s, at1, CharClass::Blank);
    let (sym, e) = match symbol(s, at2) {
        Ok(found) => found,
        Err(e) => return Err(e),
    };
    let format = if at2 == at1 {
        AmountFormat::SymbolRightNoSpace
    } else {
        AmountFormat::SymbolRightWithSpace
    };
    Ok((Amount { value: q, symbol: sym, format }, e))
}

/// Symbol first, or else quantity first.
pub open spec fn spec_amount(s: Seq<char>, pos: int) -> Outcome<AmountModel> {
    choice(
        spec_amount_symbol_then_quantity(s, pos),
        spec_amount_quantity_then_symbol(s, pos),
        pos,
        Expected::Amount,
    )
}

pub proof fn lemma_quantity_within(s: Seq<char>, pos: int)
    requires
        0 <= pos <= s.len(),
    ensures
        outcome_within(spec_quantity(s, pos), pos, s.len() as int),
{
    if pos < s.len() {
        lemma_span(s, pos + 1, CharClass::QuantityText);
    }
    if pos + 1 < s.len() {
        lemma_span(s, pos + 2, CharClass::QuantityText);
    }
}

pub proof fn lemma_symbol_within(s: Seq<char>, pos: int)
    requires
        0 <= pos <= s.len(),
    ensures
        outcome_within(spec_symbol(s, pos), pos, s.len() as int),
{
    lemma_span(s, pos, CharClass::UnquotedText);
    if pos < s.len() {
        lemma_span(s, pos + 1, CharClass::QuotedText);
    }
}

pub proof fn lemma_amount_within(s: Seq<char>, pos: int)
    requires
        0 <= pos <= s.len(),
    ensures
        outcome_within(spec_amount(s, pos), pos, s.len() as int),
{
    lemma_symbol_within(s, pos);
    lemma_quantity_within(s, pos);
    if let Ok((_, at1)) = spec_symbol(s, pos) {
        lemma_span(s, at1, CharClass::Blank);
        lemma_quantity_within(s, span(s, at1, CharClass::Blank));
    }
    if let Ok((_, at1)) = spec_quantity(s, pos) {
        lemma_span(s, at1, CharClass::Blank);
        lemma_symbol_within(s, span(s, at1, CharClass::Blank));
    }
}

/// Where a symbol parses and the quantity after it fails past its own first
/// character, the amount fails at that same position, not where it began.
pub proof fn lemma_amount_fails_in_quantity(s: Seq<char>, pos: int)
    requires
        0 <= pos <= s.len(),
        spec_symbol(s, pos) is Ok,
        ({
            let at2 = span(s, spec_symbol(s, pos)->Ok_0.1, CharClass::Blank);
            spec_quantity(s, at2) is Err && spec_quantity(s, at2)->Err_0.0 > at2
        }),
    ensures
        ({
            let at2 = span(s, spec_symbol(s, pos)->Ok_0.1, CharClass::Blank);
            spec_amount(s, pos) is Err && spec_amount(s, pos)->Err_0 == spec_quantity(s, at2)->Err_0
        }),
{
    lemma_symbol_within(s, pos);
    lemma_span(s, spec_symbol(s, pos)->Ok_0.1, CharClass::Blank);
}

/// Parses an amount in either order, trying symbol first.
pub fn amount(s: &str, pos: usize) -> (r: PResult<Amount>)
    requires
        pos <= s@.len(),
    ensures
        outcome_of(r) == spec_amount(s@, pos as int),
        within(r, pos as int, s@.len() as int),
{
    match amount_symbol_then_quantity(s, pos) {
        Ok(found) => Ok(found),
        Err(e1) => {
            if e1.position != pos {
                return Err(e1);
            }
            match amount_quantity_then_symbol(s, pos) {
                Ok(found) => Ok(found),
                Err(e2) => {
                    if e2.position != pos {
                        Err(e2)
                    } else {
                        Err(ParseError { position: pos, expected: Expected::Amount })
                    }
                },
            }
        },
    }
}

} // verus!
