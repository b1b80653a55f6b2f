use ledger::{
    account, amount, amount_quantity_then_symbol, amount_symbol_then_quantity, code, comment,
    date, header, line_ending, line_number, payee, price, price_db, quantity, quoted_symbol,
    status, sub_account, symbol, two_digits, two_digits_to_int, unquoted_symbol, whitespace,
    Amount, AmountFormat, Date, Header, Price, Symbol, TransactionStatus,
};

#[test]
fn line_number_test() {
    let (line_num, remaining_input) = line_number("hello", 0).unwrap();
    assert_eq!(line_num, 1);
    assert_eq!(&"hello"[remaining_input..], "hello");
}

#[test]
fn empty_whitespace_is_error() {
    let result = whitespace("", 0).map(|x| x.0);
    assert!(result.is_err());
}

#[test]
fn whitespace_space() {
    let result = whitespace(" ", 0).map(|x| x.0);
    assert_eq!(result, Ok(" ".to_string()));
}

#[test]
fn whitespace_tab() {
    let result = whitespace("\t", 0).map(|x| x.0);
    assert_eq!(result, Ok("\t".to_string()));
}

#[test]
fn line_ending_unix() {
    let result = line_ending("\n", 0).map(|x| x.0);
    assert_eq!(result, Ok("\n".to_string()));
}

#[test]
fn line_ending_windows() {
    let result = line_ending("\r\n", 0).map(|x| x.0);
    assert_eq!(result, Ok("\n".to_string()));
}

#[test]
fn two_digits_to_int_test() {
    let result = two_digits_to_int(('2', '7'));
    assert_eq!(result, 27);
}

#[test]
fn two_digits_test() {
    let result = two_digits("09", 0).map(|x| x.0);
    assert_eq!(result, Ok(9));
}

#[test]
fn date_test() {
    let result = date("2015-10-17", 0).map(|x| x.0);
    assert_eq!(
        result,
        Ok(Date {
            year: 2015,
            month: 10,
            day: 17
        })
    );
}

#[test]
fn status_cleared() {
    let result = status("*", 0).map(|x| x.0);
    assert_eq!(result, Ok(TransactionStatus::Cleared));
}

#[test]
fn status_uncleared() {
    let result = status("!", 0).map(|x| x.0);
    assert_eq!(result, Ok(TransactionStatus::Uncleared));
}

#[test]
fn empty_code() {
    let result = code("()", 0).map(|x| x.0);
    assert!(result.unwrap().is_empty());
}

#[test]
fn short_code() {
    let result = code("(89)", 0).map(|x| x.0);
    assert_eq!(result, Ok("89".to_string()));
}

#[test]
fn long_code() {
    let result = code("(conf# abc-123-DEF)", 0).map(|x| x.0);
    assert_eq!(result, Ok("conf# abc-123-DEF".to_string()));
}

#[test]
fn empty_payee_is_error() {
    let result = payee("", 0).map(|x| x.0);
    assert!(result.is_err());
}

#[test]
fn single_character_payee() {
    let result = payee("Z", 0).map(|x| x.0);
    assert_eq!(result, Ok("Z".to_string()));
}

#[test]
fn short_payee() {
    let result = payee("WonderMart", 0).map(|x| x.0);
    assert_eq!(result, Ok("WonderMart".to_string()));
}

#[test]
fn long_payee() {
    let result = payee(
        "WonderMart - groceries, kitchen supplies (pot), light bulbs",
        0,
    )
    .map(|x| x.0);
    assert_eq!(
        result,
        Ok("WonderMart - groceries, kitchen supplies (pot), light bulbs".to_string())
    );
}

#[test]
fn empty_comment() {
    let result = comment(";", 0).map(|x| x.0);
    assert!(result.unwrap().is_empty());
}

#[test]
fn comment_no_leading_space() {
    let result = comment(";Comment", 0).map(|x| x.0);
    assert_eq!(result, Ok("Comment".to_string()));
}

#[test]
fn comment_with_leading_space() {
    let result = comment("; Comment", 0).map(|x| x.0);
    assert_eq!(result, Ok(" Comment".to_string()));
}

#[test]
fn full_header() {
    let result = header("2015-10-20 * (conf# abc-123) Payee ;Comment", 0).map(|x| x.0);
    assert_eq!(
        result,
        Ok(Header {
            line_number: 1,
            date: Date {
                year: 2015,
                month: 10,
                day: 20
            },
            status: TransactionStatus::Cleared,
            code: Some("conf# abc-123".to_string()),
            payee: "Payee ".to_string(),
            comment: Some("Comment".to_string())
        })
    );
}

#[test]
fn header_with_code_and_no_comment() {
    let result = header("2015-10-20 ! (conf# abc-123) Payee", 0).map(|x| x.0);
    assert_eq!(
        result,
        Ok(Header {
            line_number: 1,
            date: Date {
                year: 2015,
                month: 10,
                day: 20
            },
            status: TransactionStatus::Uncleared,
            code: Some("conf# abc-123".to_string()),
            payee: "Payee".to_string(),
            comment: None
        })
    );
}

#[test]
fn header_with_comment_and_no_code() {
    let result = header("2015-10-20 * Payee ;Comment", 0).map(|x| x.0);
    assert_eq!(
        result,
        Ok(Header {
            line_number: 1,
            date: Date {
                year: 2015,
                month: 10,
                day: 20
            },
            status: TransactionStatus::Cleared,
            code: None,
            payee: "Payee ".to_string(),
            comment: Some("Comment".to_string())
        })
    );
}

#[test]
fn header_with_no_code_or_comment() {
    let result = header("2015-10-20 * Payee", 0).map(|x| x.0);
    assert_eq!(
        result,
        Ok(Header {
            line_number: 1,
            date: Date {
                year: 2015,
                month: 10,
                day: 20
            },
            status: TransactionStatus::Cleared,
            code: None,
            payee: "Payee".to_string(),
            comment: None
        })
    );
}

#[test]
fn sub_account_alphanumeric() {
    let result = sub_account("AZaz09", 0).map(|x| x.0);
    assert_eq!(result, Ok("AZaz09".to_string()));
}

#[test]
fn sub_account_can_start_with_digits() {
    let result = sub_account("123abcABC", 0).map(|x| x.0);
    assert_eq!(result, Ok("123abcABC".to_string()));
}

#[test]
fn account_multiple_level() {
    let result = account("Expenses:Food:Groceries", 0).map(|x| x.0);
    assert_eq!(
        result,
        Ok(vec![
            "Expenses".to_string(),
            "Food".to_string(),
            "Groceries".to_string()
        ])
    );
}

#[test]
fn account_single_level() {
    let result = account("Expenses", 0).map(|x| x.0);
    assert_eq!(result, Ok(vec!["Expenses".to_string()]));
}

#[test]
fn quantity_negative_no_fractional_part() {
    let result = quantity("-1110", 0).map(|x| x.0);
    assert_eq!(result, Ok("-1110".to_string()));
}

#[test]
fn quantity_positive_no_fractional_part() {
    let result = quantity("2,314", 0).map(|x| x.0);
    assert_eq!(result, Ok("2314".to_string()));
}

#[test]
fn quantity_negative_with_fractional_part() {
    let result = quantity("-1,110.38", 0).map(|x| x.0);
    assert_eq!(result, Ok("-1110.38".to_string()));
}

#[test]
fn quantity_positive_with_fractional_part() {
    let result = quantity("24521.793", 0).map(|x| x.0);
    assert_eq!(result, Ok("24521.793".to_string()));
}

#[test]
fn quoted_symbol_test() {
    let result = quoted_symbol("\"MUTF2351\"", 0).map(|x| x.0);
    assert_eq!(
        result,
        Ok(Symbol {
            value: "MUTF2351".to_string(),
            quoted: true
        })
    );
}

#[test]
fn unquoted_symbol_just_symbol() {
    let result = unquoted_symbol("$", 0).map(|x| x.0);
    assert_eq!(
        result,
        Ok(Symbol {
            value: "$".to_string(),
            quoted: false
        })
    );
}

#[test]
fn unquoted_symbol_symbol_and_letters() {
    let result = unquoted_symbol("US$", 0).map(|x| x.0);
    assert_eq!(
        result,
        Ok(Symbol {
            value: "US$".to_string(),
            quoted: false
        })
    );
}

#[test]
fn unquoted_symbol_just_letters() {
    let result = unquoted_symbol("AAPL", 0).map(|x| x.0);
    assert_eq!(
        result,
        Ok(Symbol {
            value: "AAPL".to_string(),
            quoted: false
        })
    );
}

#[test]
fn symbol_unquoted_test() {
    let result = symbol("$", 0).map(|x| x.0);
    assert_eq!(
        result,
        Ok(Symbol {
            value: "$".to_string(),
            quoted: false
        })
    );
}

#[test]
fn symbol_quoted_test() {
    let result = symbol("\"MUTF2351\"", 0).map(|x| x.0);
    assert_eq!(
        result,
        Ok(Symbol {
            value: "MUTF2351".to_string(),
            quoted: true
        })
    );
}

#[test]
fn amount_symbol_then_quantity_no_whitespace() {
    let result = amount_symbol_then_quantity("$13,245.00", 0).map(|x| x.0);
    assert_eq!(
        result,
        Ok(Amount {
            value: "13245.00".to_string(),
            symbol: Symbol {
                value: "$".to_string(),
                quoted: false
            },
            format: AmountFormat::SymbolLeftNoSpace
        })
    );
}

#[test]
fn amount_symbol_then_quantity_with_whitespace() {
    let result = amount_symbol_then_quantity("$ 13,245.00", 0).map(|x| x.0);
    assert_eq!(
        result,
        Ok(Amount {
            value: "13245.00".to_string(),
            symbol: Symbol {
                value: "$".to_string(),
                quoted: false
            },
            format: AmountFormat::SymbolLeftWithSpace
        })
    );
}

#[test]
fn amount_quantity_then_symbol_no_whitespace() {
    let result = amount_quantity_then_symbol("13,245.463AAPL", 0).map(|x| x.0);
    assert_eq!(
        result,
        Ok(Amount {
            value: "13245.463".to_string(),
            symbol: Symbol {
                value: "AAPL".to_string(),
                quoted: false
            },
            format: AmountFormat::SymbolRightNoSpace
        })
    );
}

#[test]
fn amount_quantity_then_symbol_with_whitespace() {
    let result = amount_quantity_then_symbol("13,245.463 \"MUTF2351\"", 0).map(|x| x.0);
    assert_eq!(
        result,
        Ok(Amount {
            value: "13245.463".to_string(),
            symbol: Symbol {
                value: "MUTF2351".to_string(),
                quoted: true
            },
            format: AmountFormat::SymbolRightWithSpace
        })
    );
}

#[test]
fn amount_test_symbol_then_quantity() {
    let result = amount("$13,245.46", 0).map(|x| x.0);
    assert_eq!(
        result,
        Ok(Amount {
            value: "13245.46".to_string(),
            symbol: Symbol {
                value: "$".to_string(),
                quoted: false
            },
            format: AmountFormat::SymbolLeftNoSpace
        })
    );
}

#[test]
fn amount_test_quantity_then_symbol() {
    let result = amount("13,245.463 \"MUTF2351\"", 0).map(|x| x.0);
    assert_eq!(
        result,
        Ok(Amount {
            value: "13245.463".to_string(),
            symbol: Symbol {
                value: "MUTF2351".to_string(),
                quoted: true
            },
            format: AmountFormat::SymbolRightWithSpace
        })
    );
}

fn mutf_price(day: i32, value: &str) -> Price {
    Price {
        date: Date {
            year: 2015,
            month: 10,
            day,
        },
        symbol: Symbol {
            value: "MUTF2351".to_string(),
            quoted: true,
        },
        amount: Amount {
            value: value.to_string(),
            symbol: Symbol {
                value: "$".to_string(),
                quoted: false,
            },
            format: AmountFormat::SymbolLeftNoSpace,
        },
    }
}

#[test]
fn price_test() {
    let result = price("P 2015-10-25 \"MUTF2351\" $5.42", 0).map(|x| x.0);
    assert_eq!(
        result,
        Ok(Price {
            date: Date {
                year: 2015,
                month: 10,
                day: 25
            },
            symbol: Symbol {
                value: "MUTF2351".to_string(),
                quoted: true
            },
            amount: Amount {
                value: "5.42".to_string(),
                symbol: Symbol {
                    value: "$".to_string(),
                    quoted: false
                },
                format: AmountFormat::SymbolLeftNoSpace
            }
        })
    );
}

#[test]
fn price_db_no_records() {
    let result = price_db("", 0).map(|x| x.0);
    assert_eq!(result, Ok(vec![]));
}

#[test]
fn price_db_one_record() {
    let result = price_db("P 2015-10-25 \"MUTF2351\" $5.42", 0).map(|x| x.0);
    assert_eq!(result, Ok(vec![mutf_price(25, "5.42")]));
}

#[test]
fn price_db_multiple_records() {
    let result = price_db(
        "P 2015-10-23 \"MUTF2351\" $5.42\n\
         P 2015-10-25 \"MUTF2351\" $5.98\n\
         P 2015-10-25 AAPL $313.38",
        0,
    )
    .map(|x| x.0);
    assert_eq!(
        result,
        Ok(vec![
            mutf_price(23, "5.42"),
            mutf_price(25, "5.98"),
            Price {
                date: Date {
                    year: 2015,
                    month: 10,
                    day: 25
                },
                symbol: Symbol {
                    value: "AAPL".to_string(),
                    quoted: false
                },
                amount: Amount {
                    value: "313.38".to_string(),
                    symbol: Symbol {
                        value: "$".to_string(),
                        quoted: false
                    },
                    format: AmountFormat::SymbolLeftNoSpace
                }
            }
        ])
    );
}
