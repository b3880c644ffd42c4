use std::collections::HashMap;

use pratt_expr::calculator::{apply, create_calculator, raise, Op};
use pratt_expr::errors::Error;
use pratt_expr::tokenizer::{Token, TokenStream};

fn stream(tokens: &[(&str, &str)], tail: Option<Error>) -> TokenStream {
    TokenStream {
        tokens: tokens
            .iter()
            .enumerate()
            .map(|(i, (type_tag, value))| Token {
                type_tag: type_tag.to_string(),
                value: value.to_string(),
                position: i,
            })
            .collect(),
        tail,
    }
}

fn eval(text: &str) -> Result<u64, Error> {
    create_calculator().unwrap().parse(text, HashMap::new(), 0)
}

#[test]
fn multiplication_binds_tighter_than_addition() {
    assert_eq!(eval("2 + 3 * 4"), Ok(14));
    assert_eq!(eval("2 * 3 + 4"), Ok(10));
    assert_eq!(eval("2 * 3 + 4 * 5"), Ok(26));
}

#[test]
fn operators_of_one_level_associate_to_the_left() {
    assert_eq!(eval("10 - 3 - 2"), Ok(5));
    assert_eq!(eval("10 - 3 + 2"), Ok(9));
}

#[test]
fn power_associates_to_the_right() {
    assert_eq!(eval("2 ** 3 ** 2"), Ok(512));
    assert_eq!(eval("2 * 3 ** 2"), Ok(18));
    assert_eq!(eval("2 ** 3 * 2"), Ok(16));
}

#[test]
fn brackets_group() {
    assert_eq!(eval("(2 + 3) * 4"), Ok(20));
    assert_eq!(eval("((7))"), Ok(7));
    assert_eq!(eval("2 * (3 + (4 - 1)) ** 2"), Ok(72));
}

#[test]
fn empty_brackets_are_a_syntax_error() {
    assert_eq!(eval("()"), Err(Error::SyntaxError("nothing between the brackets".to_string())));
    assert_eq!(eval("2 * ( )"), Err(Error::SyntaxError("nothing between the brackets".to_string())));
    assert_eq!(eval("("), Err(Error::SyntaxError("unexpected end of input".to_string())));
    assert_eq!(eval("(*"), Err(Error::SyntaxError("no prefix rule for token *".to_string())));
    assert_eq!(
        eval("( $"),
        Err(Error::SyntaxError("unexpected input at position 2: $".to_string()))
    );
}

#[test]
fn missing_closer_is_a_syntax_error() {
    assert_eq!(eval("(2 + 3"), Err(Error::SyntaxError("unexpected end of input".to_string())));
    assert_eq!(eval("(2 + 3 4"), Err(Error::SyntaxError("expected ) but found 4".to_string())));
}

#[test]
fn threshold_decides_where_the_expression_ends() {
    let calculator = create_calculator().unwrap();
    // From threshold 1 on, `+` no longer binds; from 2 on, neither does `*`.
    assert_eq!(calculator.parse("2 * 3 + 4", HashMap::new(), 1), Ok(6));
    assert_eq!(calculator.parse("2 * 3 + 4", HashMap::new(), 2), Ok(2));
    assert_eq!(calculator.parse("2 ** 3 * 4", HashMap::new(), 2), Ok(8));
}

#[test]
fn results_out_of_range_are_failures() {
    let lost = Err(Error::InterpreterError("the result is not a whole number of 64 bits".to_string()));
    assert_eq!(eval("3 - 4"), lost);
    assert_eq!(eval("18446744073709551615 + 1"), lost);
    assert_eq!(eval("4294967296 * 4294967296"), lost);
    assert_eq!(eval("2 ** 64"), lost);
    assert_eq!(eval("2 ** 63"), Ok(9223372036854775808));
    assert_eq!(eval("18446744073709551615 + 0"), Ok(u64::MAX));
}

#[test]
fn literal_out_of_range_is_a_failure() {
    assert_eq!(
        eval("18446744073709551616"),
        Err(Error::InterpreterError("cannot read 18446744073709551616 as a whole number".to_string()))
    );
}

#[test]
fn operator_without_left_operand_has_no_prefix_rule() {
    assert_eq!(eval("* 3"), Err(Error::SyntaxError("no prefix rule for token *".to_string())));
    assert_eq!(eval("2 + )"), Err(Error::SyntaxError("no prefix rule for token )".to_string())));
}

#[test]
fn raise_multiplies_exponent_times() {
    assert_eq!(raise(0, 0), Some(1));
    assert_eq!(raise(0, 5), Some(0));
    assert_eq!(raise(1, 1000000000000), Some(1));
    assert_eq!(raise(3, 4), Some(81));
    assert_eq!(raise(2, 63), Some(1 << 63));
    assert_eq!(raise(2, 64), None);
    assert_eq!(raise(10, 20), None);
}

#[test]
fn apply_checks_the_range() {
    assert_eq!(apply(Op::Add, 2, 3), Some(5));
    assert_eq!(apply(Op::Add, u64::MAX, 1), None);
    assert_eq!(apply(Op::Subtract, 3, 3), Some(0));
    assert_eq!(apply(Op::Subtract, 2, 3), None);
    assert_eq!(apply(Op::Multiply, 6, 7), Some(42));
    assert_eq!(apply(Op::Multiply, 1 << 32, 1 << 32), None);
    assert_eq!(apply(Op::Power, 2, 10), Some(1024));
    assert_eq!(apply(Op::Number, 2, 10), None);
    assert_eq!(apply(Op::Open, 2, 10), None);
}

#[test]
fn given_tokens_are_parsed_as_they_are() {
    let calculator = create_calculator().unwrap();
    let tokens = stream(
        &[("number", "2"), ("+", "+"), ("number", "3"), ("*", "*"), ("number", "4")],
        None,
    );
    assert_eq!(calculator.parse_stream(tokens, HashMap::new(), 0), Ok(14));
    let tokens = stream(
        &[("number", "2"), ("*", "*"), ("number", "3"), ("+", "+"), ("number", "4")],
        None,
    );
    assert_eq!(calculator.parse_stream(tokens, HashMap::new(), 0), Ok(10));
    let tokens = stream(
        &[("number", "7"), ("-", "-"), ("number", "2"), ("-", "-"), ("number", "1")],
        None,
    );
    assert_eq!(calculator.parse_stream(tokens, HashMap::new(), 0), Ok(4));
    let tokens = stream(
        &[("number", "2"), ("**", "**"), ("number", "3"), ("**", "**"), ("number", "2")],
        None,
    );
    assert_eq!(calculator.parse_stream(tokens, HashMap::new(), 0), Ok(512));
    let tokens = stream(&[("(", "("), ("number", "5"), (")", ")")], None);
    assert_eq!(calculator.parse_stream(tokens, HashMap::new(), 0), Ok(5));
}

#[test]
fn a_failed_cut_fails_the_parse_only_where_it_is_reached() {
    let calculator = create_calculator().unwrap();
    let bad = || Some(Error::SyntaxError("unexpected input at position 9: ?".to_string()));
    // The expression ends at the closing bracket, before the failure.
    let tokens = stream(&[("number", "1"), (")", ")")], bad());
    assert_eq!(calculator.parse_stream(tokens, HashMap::new(), 0), Ok(1));
    // After a value the engine looks at what comes next.
    let tokens = stream(&[("number", "1")], bad());
    assert_eq!(calculator.parse_stream(tokens, HashMap::new(), 0).err(), bad());
    // A rule that needs a token meets the failure.
    let tokens = stream(&[("number", "1"), ("+", "+")], bad());
    assert_eq!(calculator.parse_stream(tokens, HashMap::new(), 0).err(), bad());
    let tokens = stream(&[("(", "(")], bad());
    assert_eq!(calculator.parse_stream(tokens, HashMap::new(), 0).err(), bad());
    let tokens = stream(&[("(", "("), ("number", "1")], bad());
    assert_eq!(calculator.parse_stream(tokens, HashMap::new(), 0).err(), bad());
    let tokens = stream(&[], bad());
    assert_eq!(calculator.parse_stream(tokens, HashMap::new(), 0).err(), bad());
    assert_eq!(calculator.parse("1 ) ?", HashMap::new(), 0), Ok(1));
    assert_eq!(
        calculator.parse("1 ?", HashMap::new(), 0),
        Err(Error::SyntaxError("unexpected input at position 2: ?".to_string()))
    );
}
