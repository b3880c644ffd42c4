use std::collections::HashMap;

use json::number::Number;
use json::JsonValue;
use pratt_expr::errors::Error;
use pratt_expr::interpreter::{create_interpreter, Value};
use pratt_expr::number::Decimal;

fn to_json(value: Value) -> JsonValue {
    match value {
        Value::Null => JsonValue::Null,
        Value::Boolean(b) => JsonValue::Boolean(b),
        Value::Number(d) => JsonValue::Number(Number::from_parts(d.positive, d.mantissa, d.exponent)),
        Value::Text(s) => JsonValue::String(s),
        Value::Array(items) => JsonValue::Array(items.into_iter().map(to_json).collect()),
        Value::Object(entries) => {
            let mut object = JsonValue::new_object();
            for (key, item) in entries {
                object.insert(&key, to_json(item)).unwrap();
            }
            object
        }
    }
}

fn number(value: Value) -> Decimal {
    match value {
        Value::Number(d) => d,
        other => panic!("not a number: {:?}", other),
    }
}

#[test]
fn parse_number_expression() {
    let interpreter = create_interpreter().unwrap();

    assert_eq!(
        to_json(interpreter.parse("23.67", HashMap::new(), 0).unwrap()),
        23.67
    );
}

#[test]
fn parse_minus_expression_negative_number() {
    let interpreter = create_interpreter().unwrap();

    assert_eq!(to_json(interpreter.parse("-7", HashMap::new(), 0).unwrap()), -7);
}

#[test]
fn parse_minus_expression_double_negative() {
    let interpreter = create_interpreter().unwrap();

    assert_eq!(to_json(interpreter.parse("--7", HashMap::new(), 0).unwrap()), 7);
}

#[test]
fn parse_minus_expression_plus() {
    let interpreter = create_interpreter().unwrap();

    assert_eq!(to_json(interpreter.parse("-+10", HashMap::new(), 0).unwrap()), -10);
}

#[test]
fn parse_minus_expression_zero() {
    let interpreter = create_interpreter().unwrap();

    assert_eq!(to_json(interpreter.parse("-0", HashMap::new(), 0).unwrap()), 0);
}

#[test]
fn parse_plus_expression_positive_number() {
    let interpreter = create_interpreter().unwrap();

    assert_eq!(to_json(interpreter.parse("+5", HashMap::new(), 0).unwrap()), 5);
}

#[test]
fn parse_plus_expression_zero() {
    let interpreter = create_interpreter().unwrap();

    assert_eq!(to_json(interpreter.parse("+0", HashMap::new(), 0).unwrap()), 0);
}

#[test]
fn parse_plus_expression_minus() {
    let interpreter = create_interpreter().unwrap();

    assert_eq!(to_json(interpreter.parse("+-10", HashMap::new(), 0).unwrap()), -10);
}

#[test]
fn literal_keeps_its_digits_exactly() {
    let interpreter = create_interpreter().unwrap();
    let d = number(interpreter.parse("23.67", HashMap::new(), 0).unwrap());
    assert_eq!(d, Decimal { positive: true, mantissa: 2367, exponent: -2 });
    let d = number(interpreter.parse("007", HashMap::new(), 0).unwrap());
    assert_eq!(d, Decimal { positive: true, mantissa: 7, exponent: 0 });
    let d = number(interpreter.parse("1.50", HashMap::new(), 0).unwrap());
    assert_eq!(d, Decimal { positive: true, mantissa: 150, exponent: -2 });
    let d = number(interpreter.parse("18446744073709551615", HashMap::new(), 0).unwrap());
    assert_eq!(d, Decimal { positive: true, mantissa: u64::MAX, exponent: 0 });
}

#[test]
fn signs_change_the_sign_only() {
    let interpreter = create_interpreter().unwrap();
    let d = number(interpreter.parse("-7", HashMap::new(), 0).unwrap());
    assert_eq!(d, Decimal { positive: false, mantissa: 7, exponent: 0 });
    let d = number(interpreter.parse("--7", HashMap::new(), 0).unwrap());
    assert_eq!(d, Decimal { positive: true, mantissa: 7, exponent: 0 });
    let d = number(interpreter.parse("- + - 2.5", HashMap::new(), 0).unwrap());
    assert_eq!(d, Decimal { positive: true, mantissa: 25, exponent: -1 });
    let d = number(interpreter.parse("+-+1", HashMap::new(), 0).unwrap());
    assert_eq!(d, Decimal { positive: false, mantissa: 1, exponent: 0 });
}

#[test]
fn unary_plus_is_identity() {
    let interpreter = create_interpreter().unwrap();
    for text in ["0", "5", "23.67", "100.001"] {
        let plain = number(interpreter.parse(text, HashMap::new(), 0).unwrap());
        let signed = number(interpreter.parse(&format!("+{}", text), HashMap::new(), 0).unwrap());
        assert_eq!(plain, signed);
    }
}

#[test]
fn mark_gives_its_operand() {
    let interpreter = create_interpreter().unwrap();
    let d = number(interpreter.parse("!4", HashMap::new(), 0).unwrap());
    assert_eq!(d, Decimal { positive: true, mantissa: 4, exponent: 0 });
}

#[test]
fn too_many_digits_are_a_conversion_error() {
    let interpreter = create_interpreter().unwrap();
    assert_eq!(
        interpreter.parse("18446744073709551616", HashMap::new(), 0).err(),
        Some(Error::InterpreterError("cannot read 18446744073709551616 as a number".to_string()))
    );
}

#[test]
fn empty_input_is_a_syntax_error() {
    let interpreter = create_interpreter().unwrap();
    assert_eq!(
        interpreter.parse("", HashMap::new(), 0).err(),
        Some(Error::SyntaxError("unexpected end of input".to_string()))
    );
    assert_eq!(
        interpreter.parse("   ", HashMap::new(), 0).err(),
        Some(Error::SyntaxError("unexpected end of input".to_string()))
    );
    assert_eq!(
        interpreter.parse("-", HashMap::new(), 0).err(),
        Some(Error::SyntaxError("unexpected end of input".to_string()))
    );
}

#[test]
fn token_without_prefix_rule_is_a_syntax_error() {
    let interpreter = create_interpreter().unwrap();
    assert_eq!(
        interpreter.parse("*3", HashMap::new(), 0).err(),
        Some(Error::SyntaxError("no prefix rule for token *".to_string()))
    );
    assert_eq!(
        interpreter.parse("true", HashMap::new(), 0).err(),
        Some(Error::SyntaxError("no prefix rule for token true".to_string()))
    );
    assert_eq!(
        interpreter.parse("-foo", HashMap::new(), 0).err(),
        Some(Error::SyntaxError("no prefix rule for token identifier".to_string()))
    );
}

#[test]
fn binding_token_without_infix_rule_is_a_syntax_error() {
    let interpreter = create_interpreter().unwrap();
    assert_eq!(
        interpreter.parse("1 + 2", HashMap::new(), 0).err(),
        Some(Error::SyntaxError("no infix rule for token +".to_string()))
    );
}

#[test]
fn token_that_does_not_bind_ends_the_expression() {
    let interpreter = create_interpreter().unwrap();
    // `||` is on the lowest level and `)` on none: neither binds tighter than 0.
    let d = number(interpreter.parse("1 || 2", HashMap::new(), 0).unwrap());
    assert_eq!(d, Decimal { positive: true, mantissa: 1, exponent: 0 });
    let d = number(interpreter.parse("3 )", HashMap::new(), 0).unwrap());
    assert_eq!(d, Decimal { positive: true, mantissa: 3, exponent: 0 });
    // `+` is on level 5: it ends the expression from threshold 5 on.
    let d = number(interpreter.parse("1 + 2", HashMap::new(), 5).unwrap());
    assert_eq!(d, Decimal { positive: true, mantissa: 1, exponent: 0 });
}

#[test]
fn unknown_input_is_a_syntax_error_with_position_and_text() {
    let interpreter = create_interpreter().unwrap();
    assert_eq!(
        interpreter.parse("  $x", HashMap::new(), 0).err(),
        Some(Error::SyntaxError("unexpected input at position 2: $x".to_string()))
    );
    assert_eq!(
        interpreter.parse("12 #", HashMap::new(), 0).err(),
        Some(Error::SyntaxError("unexpected input at position 3: #".to_string()))
    );
}

#[test]
fn parsing_twice_gives_the_same() {
    let interpreter = create_interpreter().unwrap();
    for text in ["23.67", "--7", "", "1 + 2", "$", "-true"] {
        let first = interpreter.parse(text, HashMap::new(), 0).map(to_json);
        let second = interpreter.parse(text, HashMap::new(), 0).map(to_json);
        assert_eq!(first, second);
    }
}

#[test]
fn error_lines_name_the_kind() {
    assert_eq!(Error::SyntaxError("x".to_string()).describe(), "Syntax Error: x");
    assert_eq!(Error::InterpreterError("y".to_string()).describe(), "Interpreter Error: y");
    assert_eq!(Error::syntax("x").message(), "x");
    assert_eq!(Error::syntax("x"), Error::SyntaxError("x".to_string()));
    assert_eq!(Error::interpreter("x"), Error::InterpreterError("x".to_string()));
}
