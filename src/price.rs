use vstd::prelude::*;
use vstd::string::*;

use crate::amount::{
    amount, lemma_amount_within, lemma_symbol_within, spec_amount, spec_symbol, symbol, Amount,
    AmountModel, Symbol, SymbolModel,
};
use crate::date::{date, lemma_date_within, spec_date, Date};
use crate::input::{
    char_at_is, lemma_whitespace_within, line_ending, outcome_of, outcome_within,
    spec_line_ending, spec_whitespace, whitespace, within, Expected, Outcome, PResult,
    ParseError,
};

verus! {

/// That a symbol was worth an amount on a date.
#[derive(Debug, PartialEq, Eq)]
pub struct Price {
    pub date: Date,
    pub symbol: Symbol,
    pub amount: Amount,
}

pub struct PriceModel {
    pub date: Date,
    pub symbol: SymbolModel,
    pub amount: AmountModel,
}

impl DeepView for Price {
    type V = PriceModel;

    open spec fn deep_view(&self) -> PriceModel {
        PriceModel {
            date: self.date,
            symbol: self.symbol.deep_view(),
            amount: self.amount.deep_view(),
        }
    }
}

/// `P`, blanks, a date, blanks, a symbol, blanks, an amount.
pub open spec fn spec_price(s: Seq<char>, pos: int) -> Outcome<PriceModel> {
    if !(pos < s.len() && s[pos] == 'P') {
        Err((pos, Expected::Char('P')))
    } else {
        match spec_whitespace(s, pos + 1) {
            Err(f) => Err(f),
            Ok((_, at1)) => match spec_date(s, at1) {
                Err(f) => Err(f),
                Ok((d, at2)) => match spec_whitespace(s, at2) {
                    Err(f) => Err(f),
                    Ok((_, at3)) => match spec_symbol(s, at3) {
                        Err(f) => Err(f),
                        Ok((sym, at4)) => match spec_whitespace(s, at4) {
                            Err(f) => Err(f),
                            Ok((_, at5)) => match spec_amount(s, at5) {
                                Err(f) => Err(f),
                                Ok((a, e)) => Ok((PriceModel { date: d, symbol: sym, amount: a }, e)),
                            },
                        },
                    },
                },
            },
        }
    }
}

pub proof fn lemma_price_within(s: Seq<char>, pos: int)
    requires
        0 <= pos <= s.len(),
    ensures
        outcome_within(spec_price(s, pos), pos, s.len() as int),
{
    if pos < s.len() && s[pos] == 'P' {
        lemma_whitespace_within(s, pos + 1);
        if let Ok((_, at1)) = spec_whitespace(s, pos + 1) {
            lemma_date_within(s, at1);
            if let Ok((_, at2)) = spec_date(s, at1) {
                lemma_whitespace_within(s, at2);
                if let Ok((_, at3)) = spec_whitespace(s, at2) {
                    lemma_symbol_within(s, at3);
                    if let Ok((_, at4)) = spec_symbol(s, at3) {
                        lemma_whitespace_within(s, at4);
                        if let Ok((_, at5)) = spec_whitespace(s, at4) {
                            lemma_amount_within(s, at5);
                        }
                    }
                }
            }
        }
    }
}

/// Parses a price record such as `P 2015-10-25 "MUTF2351" $5.42`.
pub fn price(s: &str, pos: usize) -> (r: PResult<Price>)
    requires
        pos <= s@.len(),
    ensures
        outcome_of(r) == spec_price(s@, pos as int),
        within(r, pos as int, s@.len() as int),
{
    if !char_at_is(s, pos, 'P') {
        return Err(ParseError { position: pos, expected: Expected::Char('P') });
    }
    let at1 = match whitespace(s, pos + 1) {
        Ok((_, e)) => e,
        Err(f) => return Err(f),
    };
    let (d, at2) = match date(s, at1) {
        Ok(found) => found,
        Err(f) => return Err(f),
    };
    let at3 = match whitespace(s, at2) {
        Ok((_, e)) => e,
        Err(f) => return Err(f),
    };
    let (sym, at4) = match symbol(s, at3) {
        Ok(found) => found,
        Err(f) => return Err(f),
    };
    let at5 = match whitespace(s, at4) {
        Ok((_, e)) => e,
        Err(f) => return Err(f),
    };
    let (a, e) = match amount(s, at5) {
        Ok(found) => found,
        Err(f) => return Err(f),
    };
    Ok((Price { date: d, symbol: sym, amount: a }, e))
}

/// The records that follow a first one, each after one line ending. A line
/// ending must be followed by a record; anything else ends the sequence.
pub open spec fn spec_more_prices(s: Seq<char>, pos: int) -> Outcome<Seq<PriceModel>>
    decreases s.len() - pos,
    when 0 <= pos <= s.len()
{
    match spec_line_ending(s, pos) {
        Err((p, x)) => if p == pos {
            Ok((seq![], pos))
        } else {
            Err((p, x))
        },
        Ok((_, e)) => match spec_price(s, e) {
            Err(f) => Err(f),
            Ok((p, e2)) => {
                proof {
                    lemma_price_within(s, e);
                }
                match spec_more_prices(s, e2) {
                    Err(f) => Err(f),
                    Ok((rest, end)) => Ok((seq![p] + rest, end)),
                }
            },
        },
    }
}

/// Records separated by line endings, possibly none.
pub open spec fn spec_price_db(s: Seq<char>, pos: int) -> Outcome<Seq<PriceModel>> {
    match spec_price(s, pos) {
        Err((p, x)) => if p == pos {
            Ok((seq![], pos))
        } else {
            Err((p, x))
        },
        Ok((p, e)) => match spec_more_prices(s, e) {
            Err(f) => Err(f),
            Ok((rest, end)) => Ok((seq![p] + rest, end)),
        },
    }
}

/// Where the record at index `i` of a text that `starts` divides ends.
pub open spec fn record_end(s: Seq<char>, starts: Seq<int>, i: int) -> int {
    if i + 1 < starts.len() {
        starts[i + 1] - 1
    } else {
        s.len() as int
    }
}

/// `s` holds the price records `recs`, one per line: the record at index `i`
/// begins at `starts[i]`, and a line feed follows it, except after the last,
/// which ends the text.
pub open spec fn holds_records(s: Seq<char>, starts: Seq<int>, recs: Seq<PriceModel>) -> bool {
    &&& recs.len() == starts.len()
    &&& forall|i: int| 0 <= i < starts.len() ==> 0 <= #[trigger] starts[i] <= s.len()
    &&& forall|i: int|
        0 <= i < starts.len() ==> #[trigger] spec_price(s, starts[i]) == Ok::<
            (PriceModel, int),
            (int, Expected),
        >((recs[i], record_end(s, starts, i)))
    &&& forall|i: int| 1 <= i < starts.len() ==> 0 < #[trigger] starts[i] && s[starts[i] - 1] == '\n'
}

proof fn lemma_more_prices_records(s: Seq<char>, starts: Seq<int>, recs: Seq<PriceModel>, k: int)
    requires
        holds_records(s, starts, recs),
        0 <= k < starts.len(),
    ensures
        spec_more_prices(s, record_end(s, starts, k)) == Ok::<
            (Seq<PriceModel>, int),
            (int, Expected),
        >((recs.subrange(k + 1, recs.len() as int), s.len() as int)),
    decreases starts.len() - k,
{
    let n = starts.len() as int;
    if k + 1 == n {
        assert(recs.subrange(k + 1, n) =~= Seq::<PriceModel>::empty());
    } else {
        assert(spec_price(s, starts[k + 1]) == Ok::<(PriceModel, int), (int, Expected)>(
            (recs[k + 1], record_end(s, starts, k + 1)),
        ));
        assert(spec_price(s, starts[k]) == Ok::<(PriceModel, int), (int, Expected)>(
            (recs[k], record_end(s, starts, k)),
        ));
        lemma_price_within(s, starts[k + 1]);
        lemma_more_prices_records(s, starts, recs, k + 1);
        assert(s[starts[k + 1] - 1] == '\n');
        assert(seq![recs[k + 1]] + recs.subrange(k + 2, n) =~= recs.subrange(k + 1, n));
    }
}

/// A text that holds price records one per line, with the last one ending
/// the text, parses as a price database into exactly those records, in order.
pub proof fn lemma_price_db_records(s: Seq<char>, starts: Seq<int>, recs: Seq<PriceModel>)
    requires
        holds_records(s, starts, recs),
        starts.len() >= 1,
        starts[0] == 0,
    ensures
        spec_price_db(s, 0) == Ok::<(Seq<PriceModel>, int), (int, Expected)>(
            (recs, s.len() as int),
        ),
{
    assert(spec_price(s, starts[0]) == Ok::<(PriceModel, int), (int, Expected)>(
        (recs[0], record_end(s, starts, 0)),
    ));
    lemma_more_prices_records(s, starts, recs, 0);
    assert(seq![recs[0]] + recs.subrange(1, recs.len() as int) =~= recs);
}

/// An empty text is an empty price database.
pub proof fn lemma_price_db_empty()
    ensures
        spec_price_db(Seq::<char>::empty(), 0) == Ok::<(Seq<PriceModel>, int), (int, Expected)>(
            (Seq::<PriceModel>::empty(), 0),
        ),
{
}

/// The records already read, put in front of what the rest gives.
pub open spec fn after(done: Seq<PriceModel>, o: Outcome<Seq<PriceModel>>) -> Outcome<
    Seq<PriceModel>,
> {
    match o {
        Err(f) => Err(f),
        Ok((rest, end)) => Ok((done + rest, end)),
    }
}

/// Parses a price database: price records, one per line, in file order.
pub fn price_db(s: &str, pos: usize) -> (r: PResult<Vec<Price>>)
    requires
        pos <= s@.len(),
    ensures
        outcome_of(r) == spec_price_db(s@, pos as int),
        within(r, pos as int, s@.len() as int),
{
    let mut out: Vec<Price> = Vec::new();
    let (first, mut i) = match price(s, pos) {
        Ok(found) => found,
        Err(f) => {
            if f.position == pos {
                proof {
                    assert(out.deep_view() =~= Seq::<PriceModel>::empty());
                }
                return Ok((out, pos));
            }
            return Err(f);
        },
    };
    out.push(first);
    proof {
        assert(out.deep_view() =~= seq![first.deep_view()]);
    }
    loop
        invariant
            pos <= i <= s@.len(),
            spec_price_db(s@, pos as int) == after(out.deep_view(), spec_more_prices(s@, i as int)),
        decreases s@.len() - i,
    {
        let ghost old_out = out.deep_view();
        let e = match line_ending(s, i) {
            Ok((_, e)) => e,
            Err(f) => {
                if f.position == i {
                    proof {
                        assert(out.deep_view() + seq![] =~= out.deep_view());
                    }
                    return Ok((out, i));
                }
                return Err(f);
            },
        };
        let (p, e2) = match price(s, e) {
            Ok(found) => found,
            Err(f) => return Err(f),
        };
        out.push(p);
        proof {
            assert(out.deep_view() =~= old_out.push(p.deep_view()));
            let rest = spec_more_prices(s@, e2 as int);
            if let Ok((tail, end)) = rest {
                assert(old_out + (seq![p.deep_view()] + tail) =~= out.deep_view() + tail);
            }
        }
        i = e2;
    }
}

} // verus!
