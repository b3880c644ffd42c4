//! Whole-number arithmetic, as a second grammar for the engine.
//!
//! It uses every part of the engine: rules that follow a value, on several
//! levels of precedence; an operator that associates to the right, whose
//! right operand is parsed at the level just below its own; and brackets,
//! whose rule looks at what follows, asks for an expression and then for
//! the closing token.
//! Results that leave the range of 64 bits are failures, never wrapped.

use std::collections::HashMap;
use vstd::prelude::*;
use crate::config::{add_pattern, config_fault, kinds_for};
use crate::errors::{Error, Failure};
use crate::number::{literal_value, read_number};
use crate::prattparser::{
    advanced, Event, EventView, Grammar, Outcome, PrattParser, Step, StepView,
};
use crate::tables::{add_entry, add_level, add_name, find_rule, level_of, names_view};
use crate::tokenizer::{LexiconView, Stream, Token, TokenView};

verus! {

/// The rules of arithmetic.
#[derive(Debug, Clone, Copy, PartialEq, Eq)]
pub enum Op {
    /// A number literal.
    Number,
    /// An opening bracket.
    Open,
    Add,
    Subtract,
    Multiply,
    Power,
}

/// What a rule of arithmetic keeps while the engine works for it.
#[derive(Debug, Clone, Copy, PartialEq, Eq)]
pub enum Held {
    /// An opening bracket waits to see what comes after it.
    Opened,
    /// An opening bracket waits for the expression inside.
    Inner,
    /// The expression inside the brackets has this value; the closing
    /// bracket is due.
    Closer(u64),
    /// An operator has this left operand and waits for the right one.
    Right(Op, u64),
}

impl View for Held {
    type V = Held;

    open spec fn view(&self) -> Held {
        *self
    }
}

/// The meaning of the rules of arithmetic.
#[derive(Debug, Clone, Copy, PartialEq, Eq)]
pub struct Calculator;

/// The precedence below every operator: the threshold inside brackets.
pub const LOWEST: usize = 0;

/// The precedence of `+` and `-`.
pub const SUM: usize = 1;

/// The precedence of `*`.
pub const PRODUCT: usize = 2;

/// The precedence at which the right operand of `**` is parsed: below
/// that of `**` itself, so that a `**` to the right still binds.
pub const POWER_RIGHT: usize = 3;

/// The precedence of `**`.
pub const POWER: usize = 4;

/// `base` multiplied by itself `exponent` times, if every product fits.
pub open spec fn power(base: u64, exponent: nat) -> Option<u64>
    decreases exponent,
{
    if exponent == 0 {
        Some(1)
    } else {
        match power(base, (exponent - 1) as nat) {
            Some(product) => if product * base <= u64::MAX {
                Some((product * base) as u64)
            } else {
                None
            },
            None => None,
        }
    }
}

/// What the operator `op` makes of two operands, if it is an operator and
/// the result is a whole number that fits.
pub open spec fn combine(op: Op, left: u64, right: u64) -> Option<u64> {
    match op {
        Op::Add => if left + right <= u64::MAX {
            Some((left + right) as u64)
        } else {
            None
        },
        Op::Subtract => if left >= right {
            Some((left - right) as u64)
        } else {
            None
        },
        Op::Multiply => if left * right <= u64::MAX {
            Some((left * right) as u64)
        } else {
            None
        },
        Op::Power => power(left, right as nat),
        _ => None,
    }
}

/// The message for a literal that writes no whole number that fits.
pub open spec fn not_whole(text: Seq<char>) -> Seq<char> {
    "cannot read "@ + text + " as a whole number"@
}

/// The message for a result out of range.
pub open spec fn out_of_range() -> Seq<char> {
    "the result is not a whole number of 64 bits"@
}

/// The message for a missing closing bracket.
pub open spec fn expected_closer(found: Seq<char>) -> Seq<char> {
    "expected ) but found "@ + found
}

/// The message for a pair of brackets with nothing in it.
pub open spec fn empty_brackets() -> Seq<char> {
    "nothing between the brackets"@
}

/// The message for a rule used where it has no meaning.
pub open spec fn misplaced() -> Seq<char> {
    "this rule has no meaning here"@
}

impl Grammar for Calculator {
    type Value = u64;

    type Rule = Op;

    type Kept = Held;

    open spec fn prefix_spec(&self, rule: Op, token: TokenView, bindings: Map<String, u64>) -> StepView<
        u64,
        Held,
    > {
        match rule {
            Op::Number => match literal_value(token.value) {
                Some(number) => if number.exponent == 0 {
                    StepView::Done(number.mantissa)
                } else {
                    StepView::Fail(Failure::Interpreter(not_whole(token.value)))
                },
                None => StepView::Fail(Failure::Interpreter(not_whole(token.value))),
            },
            Op::Open => StepView::Peek(Held::Opened),
            _ => StepView::Fail(Failure::Syntax(misplaced())),
        }
    }

    open spec fn infix_spec(
        &self,
        rule: Op,
        left: u64,
        token: TokenView,
        bindings: Map<String, u64>,
    ) -> StepView<u64, Held> {
        match rule {
            Op::Add => StepView::Sub(SUM as nat, Held::Right(rule, left)),
            Op::Subtract => StepView::Sub(SUM as nat, Held::Right(rule, left)),
            Op::Multiply => StepView::Sub(PRODUCT as nat, Held::Right(rule, left)),
            Op::Power => StepView::Sub(POWER_RIGHT as nat, Held::Right(rule, left)),
            _ => StepView::Fail(Failure::Syntax(misplaced())),
        }
    }

    open spec fn resume_spec(&self, kept: Held, event: EventView<u64>, bindings: Map<String, u64>) -> StepView<
        u64,
        Held,
    > {
        match (kept, event) {
            (Held::Opened, EventView::Ahead(ahead)) => match ahead {
                Some(token) => if token.type_tag == ")"@ {
                    StepView::Fail(Failure::Syntax(empty_brackets()))
                } else {
                    StepView::Sub(LOWEST as nat, Held::Inner)
                },
                None => StepView::Sub(LOWEST as nat, Held::Inner),
            },
            (Held::Inner, EventView::Value(inner)) => StepView::Take(Held::Closer(inner)),
            (Held::Closer(inner), EventView::Token(token)) => if token.type_tag == ")"@ {
                StepView::Done(inner)
            } else {
                StepView::Fail(Failure::Syntax(expected_closer(token.value)))
            },
            (Held::Right(op, left), EventView::Value(right)) => match combine(op, left, right) {
                Some(result) => StepView::Done(result),
                None => StepView::Fail(Failure::Interpreter(out_of_range())),
            },
            _ => StepView::Fail(Failure::Syntax(misplaced())),
        }
    }

    fn prefix(&self, rule: &Op, token: &Token, bindings: &HashMap<String, u64>) -> (step: Step<
        u64,
        Held,
    >) {
        match rule {
            Op::Number => {
                match read_number(token.value.as_str()) {
                    Some(number) => if number.exponent == 0 {
                        Step::Done(number.mantissa)
                    } else {
                        Step::Fail(not_whole_error(token.value.as_str()))
                    },
                    None => Step::Fail(not_whole_error(token.value.as_str())),
                }
            },
            Op::Open => Step::Peek(Held::Opened),
            _ => Step::Fail(Error::syntax("this rule has no meaning here")),
        }
    }

    fn infix(&self, rule: &Op, left: u64, token: &Token, bindings: &HashMap<String, u64>) -> (step:
        Step<u64, Held>) {
        match rule {
            Op::Add => Step::Sub(SUM, Held::Right(*rule, left)),
            Op::Subtract => Step::Sub(SUM, Held::Right(*rule, left)),
            Op::Multiply => Step::Sub(PRODUCT, Held::Right(*rule, left)),
            Op::Power => Step::Sub(POWER_RIGHT, Held::Right(*rule, left)),
            _ => Step::Fail(Error::syntax("this rule has no meaning here")),
        }
    }

    fn resume(&self, kept: Held, event: Event<u64>, bindings: &HashMap<String, u64>) -> (step: Step<
        u64,
        Held,
    >) {
        match kept {
            Held::Opened => match event {
                Event::Ahead(Some(token)) => if token.type_tag == String::from_str(")") {
                    Step::Fail(Error::syntax("nothing between the brackets"))
                } else {
                    Step::Sub(LOWEST, Held::Inner)
                },
                Event::Ahead(None) => Step::Sub(LOWEST, Held::Inner),
                _ => Step::Fail(Error::syntax("this rule has no meaning here")),
            },
            Held::Inner => match event {
                Event::Value(inner) => Step::Take(Held::Closer(inner)),
                _ => Step::Fail(Error::syntax("this rule has no meaning here")),
            },
            Held::Closer(inner) => match event {
                Event::Token(token) => if token.type_tag == String::from_str(")") {
                    Step::Done(inner)
                } else {
                    Step::Fail(
                        Error::SyntaxError(
                            String::from_str("expected ) but found ").concat(token.value.as_str()),
                        ),
                    )
                },
                _ => Step::Fail(Error::syntax("this rule has no meaning here")),
            },
            Held::Right(op, left) => match event {
                Event::Value(right) => match apply(op, left, right) {
                    Some(result) => Step::Done(result),
                    None => Step::Fail(
                        Error::interpreter("the result is not a whole number of 64 bits"),
                    ),
                },
                _ => Step::Fail(Error::syntax("this rule has no meaning here")),
            },
        }
    }
}

fn not_whole_error(text: &str) -> (e: Error)
    ensures
        e@ == Failure::Interpreter(not_whole(text@)),
{
    Error::InterpreterError(String::from_str("cannot read ").concat(text).concat(" as a whole number"))
}

/// Once a product has left the range, no further factor brings it back.
proof fn lemma_power_lost(base: u64, reached: nat, exponent: nat)
    requires
        reached <= exponent,
        power(base, reached) is None,
    ensures
        power(base, exponent) is None,
    decreases exponent - reached,
{
    if reached < exponent {
        lemma_power_lost(base, reached, (exponent - 1) as nat);
    }
}

/// Zero and one stay what they are under any exponent but zero.
proof fn lemma_power_small(base: u64, exponent: nat)
    requires
        base <= 1,
        exponent > 0,
    ensures
        power(base, exponent) == Some(base),
    decreases exponent,
{
    let before = power(base, (exponent - 1) as nat);
    if exponent > 1 {
        lemma_power_small(base, (exponent - 1) as nat);
        assert(before == Some(base));
        assert(base * base == base) by (nonlinear_arith)
            requires
                base <= 1,
        ;
    } else {
        assert(before == Some(1u64));
        assert(1u64 * base == base);
    }
}

/// Raises `base` to the power `exponent`.
pub fn raise(base: u64, exponent: u64) -> (result: Option<u64>)
    ensures
        result == power(base, exponent as nat),
{
    if exponent == 0 {
        return Some(1);
    }
    if base <= 1 {
        proof {
            lemma_power_small(base, exponent as nat);
        }
        return Some(base);
    }
    let mut product: u64 = 1;
    let mut i: u64 = 0;
    while i < exponent
        invariant
            i <= exponent,
            power(base, i as nat) == Some(product),
        decreases exponent - i,
    {
        match product.checked_mul(base) {
            Some(next) => {
                product = next;
            },
            None => {
                proof {
                    lemma_power_lost(base, (i + 1) as nat, exponent as nat);
                }
                return None;
            },
        }
        i += 1;
    }
    Some(product)
}

/// Applies an operator to its two operands.
pub fn apply(op: Op, left: u64, right: u64) -> (result: Option<u64>)
    ensures
        result == combine(op, left, right),
{
    match op {
        Op::Add => left.checked_add(right),
        Op::Subtract => left.checked_sub(right),
        Op::Multiply => left.checked_mul(right),
        Op::Power => raise(left, right),
        _ => None,
    }
}

/// The patterns of the calculator: the number literal.
pub open spec fn patterns() -> Seq<(Seq<char>, Seq<char>)> {
    seq![("number"@, "[0-9]+"@)]
}

/// The token types of the calculator, `**` before `*`.
pub open spec fn token_types() -> Seq<Seq<char>> {
    seq!["**"@, "+"@, "-"@, "*"@, "("@, ")"@, "number"@]
}

/// The precedence levels of the calculator. The first level names no
/// token: it is the threshold at which every operator binds.
pub open spec fn levels() -> Seq<Seq<Seq<char>>> {
    seq![
        seq!["lowest"@],
        seq!["+"@, "-"@],
        seq!["*"@],
        seq!["**-right-associative"@],
        seq!["**"@],
    ]
}

/// The rules for the tokens that start an expression.
pub open spec fn prefix_rules() -> Seq<(Seq<char>, Op)> {
    seq![("number"@, Op::Number), ("("@, Op::Open)]
}

/// The rules for the tokens that follow a value.
pub open spec fn infix_rules() -> Seq<(Seq<char>, Op)> {
    seq![("+"@, Op::Add), ("-"@, Op::Subtract), ("*"@, Op::Multiply), ("**"@, Op::Power)]
}

/// The lexicon of the calculator.
pub open spec fn lexicon() -> LexiconView {
    LexiconView { skip: "\\s+"@, kinds: kinds_for(patterns(), token_types()) }
}

fn level_of_one(name: &str) -> (level: Vec<String>)
    ensures
        names_view(level@) == seq![name@],
{
    let mut level: Vec<String> = Vec::new();
    proof {
        assert(names_view(level@) =~= Seq::<Seq<char>>::empty());
    }
    add_name(&mut level, name);
    level
}

fn make_token_types() -> (names: Vec<String>)
    ensures
        names_view(names@) == token_types(),
{
    let mut names: Vec<String> = Vec::new();
    proof {
        assert(names_view(names@) =~= Seq::<Seq<char>>::empty());
    }
    add_name(&mut names, "**");
    add_name(&mut names, "+");
    add_name(&mut names, "-");
    add_name(&mut names, "*");
    add_name(&mut names, "(");
    add_name(&mut names, ")");
    add_name(&mut names, "number");
    names
}

fn make_levels() -> (made: Vec<Vec<String>>)
    ensures
        crate::tables::levels_view(made@) == levels(),
{
    let mut made: Vec<Vec<String>> = Vec::new();
    proof {
        assert(crate::tables::levels_view(made@) =~= Seq::<Seq<Seq<char>>>::empty());
    }
    add_level(&mut made, level_of_one("lowest"));
    let mut sums = level_of_one("+");
    add_name(&mut sums, "-");
    assert(names_view(sums@) == seq!["+"@, "-"@]);
    add_level(&mut made, sums);
    add_level(&mut made, level_of_one("*"));
    add_level(&mut made, level_of_one("**-right-associative"));
    add_level(&mut made, level_of_one("**"));
    made
}

/// Makes the parser of whole-number arithmetic. It fails only where the
/// regular expression engine refuses one of the patterns.
pub fn create_calculator() -> (made: Result<PrattParser<Calculator>, Error>)
    ensures
        match made {
            Ok(parser) => {
                &&& config_fault("\\s+"@, patterns(), token_types(), levels()) is None
                &&& parser.holds(lexicon(), levels(), prefix_rules(), infix_rules(), Calculator)
            },
            Err(e) => config_fault("\\s+"@, patterns(), token_types(), levels()) == Some(e@),
        },
{
    let mut table: Vec<(String, String)> = Vec::new();
    proof {
        assert(crate::config::patterns_view(table@) =~= Seq::<(Seq<char>, Seq<char>)>::empty());
    }
    add_pattern(&mut table, "number", "[0-9]+");
    let mut prefix: Vec<(String, Op)> = Vec::new();
    let mut infix: Vec<(String, Op)> = Vec::new();
    proof {
        assert(crate::tables::table_view(prefix@) =~= Seq::<(Seq<char>, Op)>::empty());
        assert(crate::tables::table_view(infix@) =~= Seq::<(Seq<char>, Op)>::empty());
    }
    add_entry(&mut prefix, "number", Op::Number);
    add_entry(&mut prefix, "(", Op::Open);
    add_entry(&mut infix, "+", Op::Add);
    add_entry(&mut infix, "-", Op::Subtract);
    add_entry(&mut infix, "*", Op::Multiply);
    add_entry(&mut infix, "**", Op::Power);
    assert(crate::config::patterns_view(table@) == patterns());
    assert(crate::tables::table_view(prefix@) == prefix_rules());
    assert(crate::tables::table_view(infix@) == infix_rules());
    PrattParser::new(
        "\\s+",
        table,
        make_token_types(),
        make_levels(),
        prefix,
        infix,
        Calculator,
    )
}

/// The token that writes the operator `op`.
pub open spec fn symbol(op: Op) -> Seq<char> {
    match op {
        Op::Add => "+"@,
        Op::Subtract => "-"@,
        Op::Multiply => "*"@,
        Op::Power => "**"@,
        Op::Open => "("@,
        Op::Number => "number"@,
    }
}

/// True for the four operators that stand between two operands.
pub open spec fn is_binary(op: Op) -> bool {
    op == Op::Add || op == Op::Subtract || op == Op::Multiply || op == Op::Power
}

/// The precedence of the operator `op`.
pub open spec fn binding(op: Op) -> nat {
    match op {
        Op::Add => SUM as nat,
        Op::Subtract => SUM as nat,
        Op::Multiply => PRODUCT as nat,
        Op::Power => POWER as nat,
        _ => LOWEST as nat,
    }
}

/// The precedence at which the right operand of `op` is parsed: its own,
/// but for `**`, where it is the level below.
pub open spec fn right_binding(op: Op) -> nat {
    match op {
        Op::Power => POWER_RIGHT as nat,
        _ => binding(op),
    }
}

/// The whole number that a literal writes, if it writes one.
pub open spec fn whole(text: Seq<char>) -> Option<u64> {
    match literal_value(text) {
        Some(number) => if number.exponent == 0 {
            Some(number.mantissa)
        } else {
            None
        },
        None => None,
    }
}

/// True when the token at `index` is a literal that writes `value`.
pub open spec fn literal_at(stream: Stream, index: nat, value: u64) -> bool {
    &&& index < stream.tokens.len()
    &&& stream.tokens[index as int].type_tag == "number"@
    &&& whole(stream.tokens[index as int].value) == Some(value)
}

/// True when the token at `index` is of the type `tag`.
pub open spec fn symbol_at(stream: Stream, index: nat, tag: Seq<char>) -> bool {
    index < stream.tokens.len() && stream.tokens[index as int].type_tag == tag
}

/// The outcome of an expression that has the value `value` after `end`
/// tokens.
pub open spec fn value_at(value: u64, end: nat) -> Outcome<u64> {
    Outcome { result: Ok(value), end }
}

/// Where each operator stands in the tables.
proof fn lemma_tables(op: Op)
    requires
        is_binary(op),
    ensures
        find_rule(infix_rules(), symbol(op), 0) == Some(op),
        level_of(levels(), symbol(op), 0) == Some(binding(op)),
        find_rule(prefix_rules(), "number"@, 0) == Some(Op::Number),
        find_rule(prefix_rules(), "("@, 0) == Some(Op::Open),
        find_rule(prefix_rules(), ")"@, 0) is None,
{
    reveal_strlit("+");
    reveal_strlit("-");
    reveal_strlit("*");
    reveal_strlit("**");
    reveal_strlit("(");
    reveal_strlit(")");
    reveal_strlit("number");
    reveal_strlit("lowest");
    reveal_strlit("**-right-associative");
    reveal_with_fuel(find_rule, 5);
    reveal_with_fuel(level_of, 6);
    let plus = "+"@;
    let minus = "-"@;
    let star = "*"@;
    let stars = "**"@;
    assert(plus.len() == 1 && plus[0] == '+');
    assert(minus.len() == 1 && minus[0] == '-');
    assert(star.len() == 1 && star[0] == '*');
    assert(stars.len() == 2);
    assert("("@.len() == 1 && "("@[0] == '(');
    assert(")"@.len() == 1 && ")"@[0] == ')');
    assert("number"@.len() == 6);
    assert("lowest"@.len() == 6);
    assert("**-right-associative"@.len() == 20);
    let all = levels();
    assert(all.len() == 5);
    assert(all[0] =~= seq!["lowest"@]);
    assert(all[1] =~= seq![plus, minus]);
    assert(all[2] =~= seq![star]);
    assert(all[3] =~= seq!["**-right-associative"@]);
    assert(all[4] =~= seq![stars]);
    assert(all[1][0] == plus && all[1][1] == minus);
    assert(all[2][0] == star);
    assert(all[4][0] == stars);
    let tag = symbol(op);
    assert(!all[0].contains(tag));
    assert(all[1].contains(tag) <==> (op == Op::Add || op == Op::Subtract));
    assert(all[2].contains(tag) <==> op == Op::Multiply);
    assert(!all[3].contains(tag));
    assert(all[4].contains(tag) <==> op == Op::Power);
}

/// A number literal is worth the number it writes, and the expression goes
/// on from there: where the token at `index` is a literal that writes
/// `value`, the expression is `value`, continued after the literal.
pub proof fn law_number(
    parser: PrattParser<Calculator>,
    stream: Stream,
    bindings: Map<String, u64>,
    index: nat,
    min: nat,
    value: u64,
)
    requires
        parser.holds(lexicon(), levels(), prefix_rules(), infix_rules(), Calculator),
        literal_at(stream, index, value),
    ensures
        parser.expression(stream, bindings, index, min) == parser.climb(
            stream,
            bindings,
            value,
            index + 1,
            min,
        ),
{
    lemma_tables(Op::Add);
}

/// An operator combines what stands to its left with the expression to
/// its right. Where the value so far is `left`, the token at `index` is
/// the operator `op`, which binds tighter than `min`, and the expression
/// after it, read at the operator's right precedence, is `right` and ends
/// after `end` tokens: the expression goes on from there with the two
/// combined, or fails there if the result is out of range.
pub proof fn law_binary_operator(
    parser: PrattParser<Calculator>,
    stream: Stream,
    bindings: Map<String, u64>,
    left: u64,
    index: nat,
    min: nat,
    op: Op,
    right: u64,
    end: nat,
)
    requires
        parser.holds(lexicon(), levels(), prefix_rules(), infix_rules(), Calculator),
        is_binary(op),
        binding(op) > min,
        symbol_at(stream, index, symbol(op)),
        parser.expression(stream, bindings, index + 1, right_binding(op)) == value_at(right, end),
    ensures
        parser.climb(stream, bindings, left, index, min) == match combine(op, left, right) {
            Some(result) => parser.climb(stream, bindings, result, end, min),
            None => Outcome { result: Err(Failure::Interpreter(out_of_range())), end },
        },
{
    lemma_tables(op);
    parser.lemma_expression_forward(stream, bindings, index + 1, right_binding(op));
    let token = stream.tokens[index as int];
    let step = Calculator.infix_spec(op, left, token, bindings);
    assert(step == StepView::<u64, Held>::Sub(right_binding(op), Held::Right(op, left)));
    let after = Calculator.resume_spec(Held::Right(op, left), EventView::Value(right), bindings);
    assert(parser.drive(stream, bindings, step, index + 1) == parser.drive(
        stream,
        bindings,
        after,
        end,
    ));
    assert(advanced(stream, index, end));
}

/// Brackets are worth what stands between them. Where the token at
/// `index` opens a bracket, the expression after it, read from the lowest
/// precedence, is `inner` and ends after `end` tokens, and the token there
/// closes the bracket: the expression is `inner`, continued after the
/// closing bracket.
pub proof fn law_brackets(
    parser: PrattParser<Calculator>,
    stream: Stream,
    bindings: Map<String, u64>,
    index: nat,
    min: nat,
    inner: u64,
    end: nat,
)
    requires
        parser.holds(lexicon(), levels(), prefix_rules(), infix_rules(), Calculator),
        symbol_at(stream, index, "("@),
        parser.expression(stream, bindings, index + 1, LOWEST as nat) == value_at(inner, end),
        symbol_at(stream, end, ")"@),
    ensures
        parser.expression(stream, bindings, index, min) == parser.climb(
            stream,
            bindings,
            inner,
            end + 1,
            min,
        ),
{
    lemma_tables(Op::Add);
    let next = index + 1;
    parser.lemma_expression_forward(stream, bindings, next, LOWEST as nat);
    // An expression has a value only where it starts with a token that has
    // a prefix rule: what the rule sees ahead is no closing bracket.
    let ahead = stream.tokens[next as int];
    assert(ahead.type_tag != ")"@);
    let opened = Calculator.resume_spec(Held::Opened, EventView::Ahead(Some(ahead)), bindings);
    assert(opened == StepView::<u64, Held>::Sub(LOWEST as nat, Held::Inner));
    let waiting = Calculator.resume_spec(Held::Inner, EventView::Value(inner), bindings);
    assert(waiting == StepView::<u64, Held>::Take(Held::Closer(inner)));
    let closing = Calculator.resume_spec(
        Held::Closer(inner),
        EventView::Token(stream.tokens[end as int]),
        bindings,
    );
    assert(closing == StepView::<u64, Held>::Done(inner));
    assert(parser.drive_on(stream, bindings, closing, end + 1, false) == value_at(inner, end + 1));
    assert(parser.drive_on(stream, bindings, waiting, end, false) == value_at(inner, end + 1));
    assert(parser.drive_on(stream, bindings, opened, next, true) == value_at(inner, end + 1));
    assert(parser.drive(stream, bindings, StepView::Peek(Held::Opened), next) == value_at(
        inner,
        end + 1,
    ));
    assert(advanced(stream, index, end + 1));
}

/// Brackets with nothing between them are a syntax error.
pub proof fn law_empty_brackets(
    parser: PrattParser<Calculator>,
    stream: Stream,
    bindings: Map<String, u64>,
    index: nat,
    min: nat,
)
    requires
        parser.holds(lexicon(), levels(), prefix_rules(), infix_rules(), Calculator),
        symbol_at(stream, index, "("@),
        symbol_at(stream, index + 1, ")"@),
    ensures
        parser.expression(stream, bindings, index, min).result == Err::<u64, Failure>(
            Failure::Syntax(empty_brackets()),
        ),
{
    lemma_tables(Op::Add);
    let next = index + 1;
    let closer = stream.tokens[next as int];
    let opened = Calculator.resume_spec(Held::Opened, EventView::Ahead(Some(closer)), bindings);
    assert(opened == StepView::<u64, Held>::Fail(Failure::Syntax(empty_brackets())));
    assert(parser.drive_on(stream, bindings, opened, next, true).result == Err::<u64, Failure>(
        Failure::Syntax(empty_brackets()),
    ));
    assert(parser.drive(stream, bindings, StepView::Peek(Held::Opened), next).result == Err::<
        u64,
        Failure,
    >(Failure::Syntax(empty_brackets())));
}

/// Where the tokens end, and not with a failure, the expression is
/// finished.
pub proof fn law_end_finishes(
    parser: PrattParser<Calculator>,
    stream: Stream,
    bindings: Map<String, u64>,
    left: u64,
    min: nat,
)
    requires
        stream.tail is None,
    ensures
        parser.climb(stream, bindings, left, stream.tokens.len(), min) == value_at(
            left,
            stream.tokens.len(),
        ),
{
}

/// True when `stream` is a literal that writes `a`, the operator `first`,
/// a literal that writes `b`, the operator `second`, a literal that writes
/// `c`, and nothing more.
pub open spec fn three_operands(
    stream: Stream,
    a: u64,
    first: Op,
    b: u64,
    second: Op,
    c: u64,
) -> bool {
    &&& stream.tokens.len() == 5
    &&& stream.tail is None
    &&& literal_at(stream, 0, a)
    &&& symbol_at(stream, 1, symbol(first))
    &&& literal_at(stream, 2, b)
    &&& symbol_at(stream, 3, symbol(second))
    &&& literal_at(stream, 4, c)
}

/// Multiplication binds tighter than addition: `a + b * c` is `a` plus the
/// product of `b` and `c`, where both results are in range.
pub proof fn law_product_before_sum(
    parser: PrattParser<Calculator>,
    stream: Stream,
    bindings: Map<String, u64>,
    a: u64,
    b: u64,
    c: u64,
)
    requires
        parser.holds(lexicon(), levels(), prefix_rules(), infix_rules(), Calculator),
        three_operands(stream, a, Op::Add, b, Op::Multiply, c),
        a + b * c <= u64::MAX,
    ensures
        parser.stream_spec(stream, bindings, 0) == Ok::<u64, Failure>((a + b * c) as u64),
{
    assert(b * c <= u64::MAX) by (nonlinear_arith)
        requires
            a + b * c <= u64::MAX,
            0 <= a,
    ;
    let product = (b * c) as u64;
    // The rightmost operand, read as the right side of `*`.
    law_number(parser, stream, bindings, 4, PRODUCT as nat, c);
    law_end_finishes(parser, stream, bindings, c, PRODUCT as nat);
    // The product, read as the right side of `+`.
    law_number(parser, stream, bindings, 2, SUM as nat, b);
    law_binary_operator(parser, stream, bindings, b, 3, SUM as nat, Op::Multiply, c, 5);
    law_end_finishes(parser, stream, bindings, product, SUM as nat);
    // The sum.
    law_number(parser, stream, bindings, 0, 0, a);
    law_binary_operator(parser, stream, bindings, a, 1, 0, Op::Add, product, 5);
    law_end_finishes(parser, stream, bindings, (a + product) as u64, 0);
}

/// Multiplication binds tighter than addition, on the left as well:
/// `a * b + c` is the product of `a` and `b`, plus `c`, where both results
/// are in range.
pub proof fn law_product_then_sum(
    parser: PrattParser<Calculator>,
    stream: Stream,
    bindings: Map<String, u64>,
    a: u64,
    b: u64,
    c: u64,
)
    requires
        parser.holds(lexicon(), levels(), prefix_rules(), infix_rules(), Calculator),
        three_operands(stream, a, Op::Multiply, b, Op::Add, c),
        a * b + c <= u64::MAX,
    ensures
        parser.stream_spec(stream, bindings, 0) == Ok::<u64, Failure>((a * b + c) as u64),
{
    assert(a * b <= u64::MAX) by (nonlinear_arith)
        requires
            a * b + c <= u64::MAX,
            0 <= c,
    ;
    let product = (a * b) as u64;
    // The right side of `*` ends before `+`, which binds no tighter.
    law_number(parser, stream, bindings, 2, PRODUCT as nat, b);
    lemma_tables(Op::Add);
    assert(parser.climb(stream, bindings, b, 3, PRODUCT as nat) == value_at(b, 3));
    // The right side of `+`.
    law_number(parser, stream, bindings, 4, SUM as nat, c);
    law_end_finishes(parser, stream, bindings, c, SUM as nat);
    // The product, then the sum.
    law_number(parser, stream, bindings, 0, 0, a);
    law_binary_operator(parser, stream, bindings, a, 1, 0, Op::Multiply, b, 3);
    law_binary_operator(parser, stream, bindings, product, 3, 0, Op::Add, c, 5);
    law_end_finishes(parser, stream, bindings, (product + c) as u64, 0);
}

/// Operators of one precedence associate to the left: `a - b - c` is `a`
/// less `b`, less `c`, where both results are whole numbers.
pub proof fn law_left_to_right(
    parser: PrattParser<Calculator>,
    stream: Stream,
    bindings: Map<String, u64>,
    a: u64,
    b: u64,
    c: u64,
)
    requires
        parser.holds(lexicon(), levels(), prefix_rules(), infix_rules(), Calculator),
        three_operands(stream, a, Op::Subtract, b, Op::Subtract, c),
        a - b - c >= 0,
    ensures
        parser.stream_spec(stream, bindings, 0) == Ok::<u64, Failure>((a - b - c) as u64),
{
    let difference = (a - b) as u64;
    // The right side of the first `-` ends before the second, which binds
    // no tighter.
    law_number(parser, stream, bindings, 2, SUM as nat, b);
    lemma_tables(Op::Subtract);
    assert(parser.climb(stream, bindings, b, 3, SUM as nat) == value_at(b, 3));
    // The right side of the second `-`.
    law_number(parser, stream, bindings, 4, SUM as nat, c);
    law_end_finishes(parser, stream, bindings, c, SUM as nat);
    // The first difference, then the second.
    law_number(parser, stream, bindings, 0, 0, a);
    law_binary_operator(parser, stream, bindings, a, 1, 0, Op::Subtract, b, 3);
    law_binary_operator(parser, stream, bindings, difference, 3, 0, Op::Subtract, c, 5);
    law_end_finishes(parser, stream, bindings, (difference - c) as u64, 0);
}

/// The operator `**` associates to the right: `a ** b ** c` is `a` to the
/// power of `b` to the power of `c`, where both powers are in range.
pub proof fn law_power_right_to_left(
    parser: PrattParser<Calculator>,
    stream: Stream,
    bindings: Map<String, u64>,
    a: u64,
    b: u64,
    c: u64,
    inner: u64,
    outer: u64,
)
    requires
        parser.holds(lexicon(), levels(), prefix_rules(), infix_rules(), Calculator),
        three_operands(stream, a, Op::Power, b, Op::Power, c),
        power(b, c as nat) == Some(inner),
        power(a, inner as nat) == Some(outer),
    ensures
        parser.stream_spec(stream, bindings, 0) == Ok::<u64, Failure>(outer),
{
    // The rightmost operand, read as the right side of the second `**`.
    law_number(parser, stream, bindings, 4, POWER_RIGHT as nat, c);
    law_end_finishes(parser, stream, bindings, c, POWER_RIGHT as nat);
    // The right side of the first `**` takes the second `**` in, which
    // binds tighter than the level below its own.
    law_number(parser, stream, bindings, 2, POWER_RIGHT as nat, b);
    law_binary_operator(parser, stream, bindings, b, 3, POWER_RIGHT as nat, Op::Power, c, 5);
    law_end_finishes(parser, stream, bindings, inner, POWER_RIGHT as nat);
    // The whole.
    law_number(parser, stream, bindings, 0, 0, a);
    law_binary_operator(parser, stream, bindings, a, 1, 0, Op::Power, inner, 5);
    law_end_finishes(parser, stream, bindings, outer, 0);
}

} // verus!
