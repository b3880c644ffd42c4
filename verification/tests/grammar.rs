use std::collections::HashMap;

use pratt_expr::calculator::{Calculator, Held, Op, LOWEST, POWER_RIGHT, PRODUCT, SUM};
use pratt_expr::errors::Error;
use pratt_expr::interpreter::{JsonGrammar, JsonRule, Unary, Value, UNARY};
use pratt_expr::number::Decimal;
use pratt_expr::prattparser::{Context, Event, Grammar, Step};
use pratt_expr::tokenizer::Token;

fn token(type_tag: &str, value: &str) -> Token {
    Token { type_tag: type_tag.to_string(), value: value.to_string(), position: 0 }
}

fn seven() -> Value {
    Value::Number(Decimal { positive: true, mantissa: 7, exponent: 0 })
}

#[test]
fn signs_ask_for_an_operand_at_the_unary_level() {
    let bindings = HashMap::new();
    assert_eq!(UNARY, 11);
    assert!(matches!(
        JsonGrammar.prefix(&JsonRule::Minus, &token("-", "-"), &bindings),
        Step::Sub(11, Unary::Minus)
    ));
    assert!(matches!(
        JsonGrammar.prefix(&JsonRule::Plus, &token("+", "+"), &bindings),
        Step::Sub(11, Unary::Plus)
    ));
    assert!(matches!(
        JsonGrammar.prefix(&JsonRule::Not, &token("!", "!"), &bindings),
        Step::Sub(11, Unary::Not)
    ));
}

#[test]
fn number_rule_reads_the_literal() {
    let bindings = HashMap::new();
    assert!(matches!(
        JsonGrammar.prefix(&JsonRule::Number, &token("number", "4.25"), &bindings),
        Step::Done(Value::Number(Decimal { positive: true, mantissa: 425, exponent: -2 }))
    ));
    assert!(matches!(
        JsonGrammar.prefix(&JsonRule::Number, &token("number", "4x"), &bindings),
        Step::Fail(Error::InterpreterError(ref m)) if m == "cannot read 4x as a number"
    ));
}

#[test]
fn signs_expect_a_number() {
    let bindings = HashMap::new();
    assert!(matches!(
        JsonGrammar.resume(Unary::Minus, Event::Value(seven()), &bindings),
        Step::Done(Value::Number(Decimal { positive: false, mantissa: 7, exponent: 0 }))
    ));
    assert!(matches!(
        JsonGrammar.resume(Unary::Plus, Event::Value(seven()), &bindings),
        Step::Done(Value::Number(Decimal { positive: true, mantissa: 7, exponent: 0 }))
    ));
    assert!(matches!(
        JsonGrammar.resume(Unary::Minus, Event::Value(Value::Null), &bindings),
        Step::Fail(Error::InterpreterError(ref m)) if m == "This operator expects a number"
    ));
    assert!(matches!(
        JsonGrammar.resume(Unary::Plus, Event::Value(Value::Text("x".to_string())), &bindings),
        Step::Fail(Error::InterpreterError(ref m)) if m == "This operator expects a number"
    ));
    assert!(matches!(
        JsonGrammar.resume(Unary::Not, Event::Value(Value::Boolean(true)), &bindings),
        Step::Done(Value::Boolean(true))
    ));
}

#[test]
fn rules_refuse_what_they_did_not_ask_for() {
    let bindings = HashMap::new();
    assert!(matches!(
        JsonGrammar.resume(Unary::Minus, Event::Token(token("+", "+")), &bindings),
        Step::Fail(Error::SyntaxError(ref m)) if m == "this rule takes no token"
    ));
    assert!(matches!(
        JsonGrammar.resume(Unary::Minus, Event::Ahead(None), &bindings),
        Step::Fail(Error::SyntaxError(ref m)) if m == "this rule takes no token"
    ));
    assert!(matches!(
        JsonGrammar.infix(&JsonRule::Plus, seven(), &token("+", "+"), &bindings),
        Step::Fail(Error::SyntaxError(ref m)) if m == "this rule does not follow a value"
    ));
    let none = HashMap::new();
    assert!(matches!(
        Calculator.prefix(&Op::Add, &token("+", "+"), &none),
        Step::Fail(Error::SyntaxError(ref m)) if m == "this rule has no meaning here"
    ));
    assert!(matches!(
        Calculator.infix(&Op::Number, 1, &token("number", "1"), &none),
        Step::Fail(Error::SyntaxError(ref m)) if m == "this rule has no meaning here"
    ));
    assert!(matches!(
        Calculator.resume(Held::Inner, Event::Token(token(")", ")")), &none),
        Step::Fail(Error::SyntaxError(ref m)) if m == "this rule has no meaning here"
    ));
}

#[test]
fn calculator_rules_step_by_step() {
    let none = HashMap::new();
    assert!(matches!(Calculator.prefix(&Op::Number, &token("number", "12"), &none), Step::Done(12)));
    assert!(matches!(
        Calculator.prefix(&Op::Open, &token("(", "("), &none),
        Step::Peek(Held::Opened)
    ));
    assert!(matches!(
        Calculator.resume(Held::Opened, Event::Ahead(Some(token("number", "1"))), &none),
        Step::Sub(LOWEST, Held::Inner)
    ));
    assert!(matches!(
        Calculator.resume(Held::Opened, Event::Ahead(None), &none),
        Step::Sub(LOWEST, Held::Inner)
    ));
    assert!(matches!(
        Calculator.resume(Held::Inner, Event::Value(5), &none),
        Step::Take(Held::Closer(5))
    ));
    assert!(matches!(
        Calculator.resume(Held::Closer(5), Event::Token(token(")", ")")), &none),
        Step::Done(5)
    ));
    assert!(matches!(
        Calculator.infix(&Op::Add, 1, &token("+", "+"), &none),
        Step::Sub(SUM, Held::Right(Op::Add, 1))
    ));
    assert!(matches!(
        Calculator.infix(&Op::Multiply, 2, &token("*", "*"), &none),
        Step::Sub(PRODUCT, Held::Right(Op::Multiply, 2))
    ));
    assert!(matches!(
        Calculator.infix(&Op::Power, 2, &token("**", "**"), &none),
        Step::Sub(POWER_RIGHT, Held::Right(Op::Power, 2))
    ));
    assert!(matches!(
        Calculator.resume(Held::Right(Op::Power, 2), Event::Value(5), &none),
        Step::Done(32)
    ));
}

#[test]
fn context_moves_forward_only() {
    let calculator = pratt_expr::calculator::create_calculator().unwrap();
    let bindings = HashMap::new();
    let mut context = Context::new(&calculator, "1 + 2 ) 3 * 4", &bindings);
    assert_eq!(context.offset(), 0);
    assert_eq!(context.parse(0), Ok(3));
    assert_eq!(context.offset(), 3);
    // The closing bracket has no prefix rule; it has been passed all the same.
    assert_eq!(
        context.parse(0),
        Err(Error::SyntaxError("no prefix rule for token )".to_string()))
    );
    assert_eq!(context.offset(), 4);
    assert_eq!(context.parse(0), Ok(12));
    assert_eq!(context.offset(), 7);
    assert_eq!(context.parse(0), Err(Error::SyntaxError("unexpected end of input".to_string())));
    assert_eq!(context.offset(), 7);
}

#[test]
fn context_over_given_tokens() {
    let calculator = pratt_expr::calculator::create_calculator().unwrap();
    let bindings = HashMap::new();
    let stream = calculator.tokenize("2 ** 3 4");
    assert_eq!(stream.tokens.len(), 4);
    assert_eq!(stream.tail, None);
    let mut context = Context::over(&calculator, stream, &bindings);
    assert_eq!(context.parse(0), Ok(8));
    assert_eq!(context.offset(), 3);
    assert_eq!(context.parse(0), Ok(4));
    assert_eq!(context.offset(), 4);
}
