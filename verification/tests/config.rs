use std::collections::HashMap;

use pratt_expr::calculator::{Calculator, Op};
use pratt_expr::config::{bare_symbol, check_levels, find_unknown, make_kind, make_kinds, symbol_char};
use pratt_expr::errors::Error;
use pratt_expr::number::{read_number, Decimal};
use pratt_expr::prattparser::PrattParser;
use pratt_expr::tables::{lists, lookup, precedence};
use pratt_expr::tokenizer::TokenKind;

fn names(list: &[&str]) -> Vec<String> {
    list.iter().map(|s| s.to_string()).collect()
}

fn pairs(list: &[(&str, &str)]) -> Vec<(String, String)> {
    list.iter().map(|(a, b)| (a.to_string(), b.to_string())).collect()
}

fn make(
    skip: &str,
    patterns: &[(&str, &str)],
    token_types: &[&str],
    levels: &[&[&str]],
) -> Result<PrattParser<Calculator>, Error> {
    PrattParser::new(
        skip,
        pairs(patterns),
        names(token_types),
        levels.iter().map(|l| names(l)).collect(),
        vec![("number".to_string(), Op::Number)],
        vec![("+".to_string(), Op::Add)],
        Calculator,
    )
}

#[test]
fn token_type_without_pattern_fails_at_construction() {
    let made = make("\\s+", &[("number", "[0-9]+")], &["+", "number", "identifier"], &[&["+"]]);
    assert_eq!(
        made.err(),
        Some(Error::SyntaxError("token type identifier has no pattern".to_string()))
    );
}

#[test]
fn first_faulty_token_type_is_reported() {
    let made = make("\\s+", &[], &["+", "a1", "number"], &[]);
    assert_eq!(made.err(), Some(Error::SyntaxError("token type a1 has no pattern".to_string())));
    let made = make("\\s+", &[], &[""], &[]);
    assert_eq!(made.err(), Some(Error::SyntaxError("token type  has no pattern".to_string())));
}

#[test]
fn pattern_that_is_no_regular_expression_fails_at_construction() {
    let made = make("\\s+", &[("number", "[0-9")], &["number"], &[]);
    assert_eq!(
        made.err(),
        Some(Error::SyntaxError(
            "the pattern of token type number is not a regular expression".to_string()
        ))
    );
    let made = make("(", &[("number", "[0-9]+")], &["number"], &[]);
    assert_eq!(
        made.err(),
        Some(Error::SyntaxError("the skip pattern is not a regular expression".to_string()))
    );
}

#[test]
fn unknown_name_in_a_level_fails_at_construction() {
    let made = make("\\s+", &[("number", "[0-9]+")], &["+", "-", "number"], &[&["+", "minus"]]);
    assert_eq!(
        made.err(),
        Some(Error::SyntaxError("unknown token type minus in the precedence table".to_string()))
    );
}

#[test]
fn a_name_alone_in_its_level_may_be_a_marker() {
    let made = make("\\s+", &[("number", "[0-9]+")], &["+", "number"], &[&["lowest"], &["+"], &[]]);
    let parser = made.unwrap();
    assert_eq!(parser.parse("1 + 2", HashMap::new(), 0), Ok(3));
}

#[test]
fn first_pattern_for_a_token_type_counts() {
    let made = make(
        "\\s+",
        &[("number", "[0-9]+"), ("number", "[a-z]+")],
        &["+", "number"],
        &[&["lowest"], &["+"]],
    );
    let parser = made.unwrap();
    assert_eq!(parser.parse("12", HashMap::new(), 0), Ok(12));
    assert_eq!(
        parser.parse("ab", HashMap::new(), 0),
        Err(Error::SyntaxError("unexpected input at position 0: ab".to_string()))
    );
}

#[test]
fn symbols_are_punctuation_only() {
    assert!(bare_symbol("**"));
    assert!(bare_symbol("!="));
    assert!(bare_symbol("_"));
    assert!(!bare_symbol(""));
    assert!(!bare_symbol("in"));
    assert!(!bare_symbol("+1"));
    assert!(!bare_symbol("+ "));
    assert!(!bare_symbol("é"));
    assert!(symbol_char('!') && symbol_char('/') && symbol_char(':') && symbol_char('@'));
    assert!(symbol_char('[') && symbol_char('`') && symbol_char('{') && symbol_char('~'));
    assert!(!symbol_char(' ') && !symbol_char('0') && !symbol_char('A') && !symbol_char('z'));
    assert!(!symbol_char('\u{7f}'));
}

#[test]
fn kinds_follow_the_token_types() {
    let patterns = pairs(&[("number", "[0-9]+")]);
    assert_eq!(
        make_kind(&patterns, &"number".to_string()),
        Ok(TokenKind { name: "number".to_string(), pattern: Some("[0-9]+".to_string()) })
    );
    assert_eq!(
        make_kind(&patterns, &"+".to_string()),
        Ok(TokenKind { name: "+".to_string(), pattern: None })
    );
    assert_eq!(
        make_kinds(&patterns, &names(&["+", "number"])),
        Ok(vec![
            TokenKind { name: "+".to_string(), pattern: None },
            TokenKind { name: "number".to_string(), pattern: Some("[0-9]+".to_string()) },
        ])
    );
    assert_eq!(
        make_kinds(&patterns, &names(&["+", "word", "number"])),
        Err(Error::SyntaxError("token type word has no pattern".to_string()))
    );
}

#[test]
fn levels_are_checked_in_order() {
    let token_types = names(&["+", "-"]);
    assert_eq!(check_levels(&token_types, &vec![names(&["+", "-"]), names(&["marker"])]), None);
    assert_eq!(
        check_levels(&token_types, &vec![names(&["+", "a"]), names(&["b", "-"])]),
        Some(Error::SyntaxError("unknown token type a in the precedence table".to_string()))
    );
    assert_eq!(find_unknown(&token_types, &names(&["+", "x", "y"])), Some(&"x".to_string()));
    assert_eq!(find_unknown(&token_types, &names(&["-", "+"])), None);
}

#[test]
fn tables_are_searched_from_the_front() {
    let table = vec![("a".to_string(), 1), ("b".to_string(), 2), ("a".to_string(), 3)];
    assert_eq!(lookup(&table, &"a".to_string()), Some(&1));
    assert_eq!(lookup(&table, &"b".to_string()), Some(&2));
    assert_eq!(lookup(&table, &"c".to_string()), None);
    let levels = vec![names(&["||"]), names(&["+", "-"]), names(&["-", "*"])];
    assert_eq!(precedence(&levels, &"||".to_string()), Some(0));
    assert_eq!(precedence(&levels, &"-".to_string()), Some(1));
    assert_eq!(precedence(&levels, &"*".to_string()), Some(2));
    assert_eq!(precedence(&levels, &"/".to_string()), None);
    assert!(lists(&levels[1], &"-".to_string()));
    assert!(!lists(&levels[1], &"*".to_string()));
}

#[test]
fn numbers_are_read_digit_by_digit() {
    assert_eq!(read_number("0"), Some(Decimal { positive: true, mantissa: 0, exponent: 0 }));
    assert_eq!(read_number("23.67"), Some(Decimal { positive: true, mantissa: 2367, exponent: -2 }));
    assert_eq!(read_number("0.001"), Some(Decimal { positive: true, mantissa: 1, exponent: -3 }));
    assert_eq!(
        read_number("1844674407370955161.5"),
        Some(Decimal { positive: true, mantissa: u64::MAX, exponent: -1 })
    );
    assert_eq!(read_number("1844674407370955161.6"), None);
    assert_eq!(read_number(""), None);
    assert_eq!(read_number("."), None);
    assert_eq!(read_number("1."), None);
    assert_eq!(read_number(".5"), None);
    assert_eq!(read_number("1.2.3"), None);
    assert_eq!(read_number("1e5"), None);
    assert_eq!(read_number("-1"), None);
    assert_eq!(read_number("١٢"), None);
    let d = Decimal { positive: true, mantissa: 5, exponent: -1 };
    assert_eq!(d.negate(), Decimal { positive: false, mantissa: 5, exponent: -1 });
    assert_eq!(d.negate().negate(), d);
}
