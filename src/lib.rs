//! Parsers for plain-text ledger journals and price databases.
//!
//! Every production is a function from an input text and a character
//! position to either a value with the position after it, or a failure
//! carrying the position where parsing stopped and what was expected there.
//! Each one is proved to agree with a spec function that states the grammar.
mod account;
mod amount;
mod date;
mod header;
mod input;
mod price;

pub use input::{
    choice, column_number, in_class, is_digit, is_line_break, line_at, line_ending, line_number,
    line_start, newline_count, outcome_of, outcome_within, scan, span, spec_line_ending,
    spec_whitespace, whitespace, within, CharClass, Expected, Outcome, PResult, ParseError,
};

pub use date::{
    date, decimal_value, digit_value, lemma_two_digits_exact, spec_date, spec_two_digits,
    two_digits, two_digits_to_int, Date,
};

pub use header::{
    code, comment, header, optional, payee, spec_code, spec_code_clause, spec_comment,
    spec_header, spec_payee, spec_payee_and_comment, spec_status, status, Header, HeaderModel,
    TransactionStatus,
};

pub use account::{account, spec_account, spec_sub_account, sub_account};

pub use amount::{
    amount, amount_quantity_then_symbol, amount_symbol_then_quantity,
    lemma_amount_fails_in_quantity, lemma_quantity_idempotent, quantity, quoted_symbol,
    spec_amount, spec_amount_quantity_then_symbol, spec_amount_symbol_then_quantity,
    spec_quantity, spec_quoted_symbol, spec_symbol, spec_unquoted_symbol, symbol,
    unquoted_symbol, without_grouping, Amount, AmountFormat, AmountModel, Symbol, SymbolModel,
};

pub use price::{
    after, holds_records, lemma_price_db_empty, lemma_price_db_records, price, price_db,
    record_end, spec_more_prices, spec_price, spec_price_db, Price, PriceModel,
};
