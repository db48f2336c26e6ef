use money_parser::parse_money;
use money_parser::Money;
use money_parser::ParseError;

/// The amount of a parsed value, read back as a float for comparison.
fn amount_as_f32(m: &Money) -> f32 {
    m.amount.to_text().parse().unwrap()
}

#[test]
fn parse_money_should_return_invalid_input_const_for_empty_string() {
    assert_eq!(parse_money(""), Err(ParseError::InvalidInput));
}

#[test]
fn parse_money_should_return_invalid_input_const_for_string_without_currency() {
    assert_eq!(parse_money("123"), Err(ParseError::InvalidInput));
}

#[test]
fn parse_money_should_return_invalid_input_const_for_string_without_amount() {
    assert_eq!(parse_money("eur"), Err(ParseError::InvalidInput));
}

#[test]
fn parse_money_should_return_integer_amount_and_currency() {
    let money = parse_money("123 €").unwrap();

    assert_eq!(amount_as_f32(&money), 123.0);
    assert_eq!(money.currency, "€");
}

#[test]
fn parse_money_should_return_float_amount_and_currency() {
    let money = parse_money("123.45 €").unwrap();

    assert_eq!(amount_as_f32(&money), 123.45);
    assert_eq!(money.currency, "€");
}

#[test]
fn parse_money_should_return_negative_integer_amount_and_currency() {
    let money = parse_money("-123 €").unwrap();

    assert_eq!(amount_as_f32(&money), -123.0);
    assert_eq!(money.currency, "€");
}

#[test]
fn parse_money_should_return_negative_float_amount_and_currency() {
    let money = parse_money("-123.45 €").unwrap();

    assert_eq!(amount_as_f32(&money), -123.45);
    assert_eq!(money.currency, "€");
}

#[test]
fn three_segments_are_invalid_input() {
    assert_eq!(parse_money("123 eur extra"), Err(ParseError::InvalidInput));
}

#[test]
fn currency_before_amount_is_parse_failed() {
    assert_eq!(parse_money("eur 123"), Err(ParseError::ParseFailed));
}

#[test]
fn a_run_of_blanks_acts_as_one_separator() {
    let wide = parse_money("123   €").unwrap();
    let narrow = parse_money("123 €").unwrap();

    assert_eq!(wide.amount.to_text(), narrow.amount.to_text());
    assert_eq!(wide.currency, narrow.currency);
}

#[test]
fn tabs_and_newlines_separate_segments() {
    let money = parse_money("123\t€").unwrap();
    assert_eq!(money.amount.to_text(), "123");
    assert_eq!(money.currency, "€");

    let money = parse_money("123\n€").unwrap();
    assert_eq!(money.amount.to_text(), "123");
    assert_eq!(money.currency, "€");
}

#[test]
fn leading_and_trailing_blanks_are_ignored() {
    let money = parse_money("  -7.5 kr\n").unwrap();
    assert_eq!(money.amount.to_text(), "-7.5");
    assert_eq!(money.currency, "kr");
}

#[test]
fn only_blanks_is_invalid_input() {
    assert_eq!(parse_money(" \t\n "), Err(ParseError::InvalidInput));
}

#[test]
fn amount_digits_are_kept_verbatim() {
    let money = parse_money("007 gold").unwrap();
    assert_eq!(money.amount.to_text(), "007");
    assert!(!money.amount.negative);
    assert_eq!(money.amount.int_digits, "007");
    assert_eq!(money.amount.frac_digits, "");
}

#[test]
fn negative_zero_keeps_its_sign_text() {
    let money = parse_money("-0.00 €").unwrap();
    assert!(money.amount.negative);
    assert_eq!(money.amount.int_digits, "0");
    assert_eq!(money.amount.frac_digits, "00");
    assert_eq!(money.amount.to_text(), "-0.00");
}

#[test]
fn currency_is_any_non_blank_text() {
    let money = parse_money("10 $€£").unwrap();
    assert_eq!(money.currency, "$€£");
}

#[test]
fn two_dots_are_parse_failed() {
    assert_eq!(parse_money("12.3.4 €"), Err(ParseError::ParseFailed));
}

#[test]
fn exponent_notation_is_not_accepted() {
    assert_eq!(parse_money("1e5 €"), Err(ParseError::ParseFailed));
}

#[test]
fn leading_plus_is_parse_failed() {
    assert_eq!(parse_money("+5 €"), Err(ParseError::ParseFailed));
}

#[test]
fn dot_without_integer_digits_is_parse_failed() {
    assert_eq!(parse_money(".5 €"), Err(ParseError::ParseFailed));
    assert_eq!(parse_money("-.5 €"), Err(ParseError::ParseFailed));
}

#[test]
fn dot_without_fraction_digits_is_parse_failed() {
    assert_eq!(parse_money("5. €"), Err(ParseError::ParseFailed));
}

#[test]
fn bare_sign_is_parse_failed() {
    assert_eq!(parse_money("- €"), Err(ParseError::ParseFailed));
    assert_eq!(parse_money("--1 €"), Err(ParseError::ParseFailed));
}

#[test]
fn trailing_junk_in_amount_is_parse_failed() {
    assert_eq!(parse_money("12a €"), Err(ParseError::ParseFailed));
}

#[test]
fn formatted_amount_parses_back_to_the_same_value() {
    let money = parse_money("-123.45 €").unwrap();
    let text = money.amount.to_text();
    assert_eq!(text, "-123.45");

    let again = parse_money(&format!("{} {}", text, money.currency)).unwrap();
    assert_eq!(again.amount.to_text(), text);
    assert_eq!(again.currency, money.currency);
    assert_eq!(amount_as_f32(&again), amount_as_f32(&money));
}
