//! A parser for expressions over JSON-like values.
//!
//! So far the expressions are decimal numbers with the signs `+` and `-`
//! and the mark `!` before them. The lexicon and the precedence levels are
//! those of the full expression language; tokens without a rule are cut but
//! end the parse with a failure.

use std::collections::HashMap;
use vstd::prelude::*;
use crate::config::{add_pattern, config_fault};
use crate::errors::{Error, Failure};
use crate::number::{literal_value, read_number, Decimal};
use crate::prattparser::{
    advanced, Event, EventView, Grammar, Outcome, PrattParser, Step, StepView,
};
use crate::tables::{add_entry, add_level, add_name, find_rule, lemma_level_of_bound, level_of};
use crate::tokenizer::{tokens_of, LexiconView, Stream, Token, TokenView};

verus! {

/// A JSON-like value. In contracts a value stands for itself.
#[derive(Debug)]
pub enum Value {
    Null,
    Boolean(bool),
    Number(Decimal),
    Text(String),
    Array(Vec<Value>),
    Object(Vec<(String, Value)>),
}

impl View for Value {
    type V = Value;

    open spec fn view(&self) -> Value {
        *self
    }
}

/// The rules of the expression language.
#[derive(Debug, Clone, Copy, PartialEq, Eq)]
pub enum JsonRule {
    /// A number literal.
    Number,
    /// The mark `!`: its operand, as it is.
    Not,
    /// The sign `-`: its operand, negated.
    Minus,
    /// The sign `+`: its operand, as it is.
    Plus,
}

/// The operator that waits for its operand.
#[derive(Debug, Clone, Copy, PartialEq, Eq)]
pub enum Unary {
    Not,
    Minus,
    Plus,
}

impl View for Unary {
    type V = Unary;

    open spec fn view(&self) -> Unary {
        *self
    }
}

/// The precedence at which the operand of a sign is parsed: the index of
/// the level `unary`, the tightest of all.
pub const UNARY: usize = 11;

/// The meaning of the rules of the expression language.
#[derive(Debug, Clone, Copy, PartialEq, Eq)]
pub struct JsonGrammar;

/// The message for a literal that writes no number that can be held.
pub open spec fn not_a_number(text: Seq<char>) -> Seq<char> {
    "cannot read "@ + text + " as a number"@
}

/// The message for a sign before something that is no number.
pub open spec fn expects_number() -> Seq<char> {
    "This operator expects a number"@
}

/// The message for a rule that is brought what it never asked for.
pub open spec fn unexpected_event() -> Seq<char> {
    "this rule takes no token"@
}

/// The message for a rule used after a value.
pub open spec fn not_infix() -> Seq<char> {
    "this rule does not follow a value"@
}

impl Grammar for JsonGrammar {
    type Value = Value;

    type Rule = JsonRule;

    type Kept = Unary;

    open spec fn prefix_spec(
        &self,
        rule: JsonRule,
        token: TokenView,
        bindings: Map<String, Value>,
    ) -> StepView<Value, Unary> {
        match rule {
            JsonRule::Number => match literal_value(token.value) {
                Some(number) => StepView::Done(Value::Number(number)),
                None => StepView::Fail(Failure::Interpreter(not_a_number(token.value))),
            },
            JsonRule::Not => StepView::Sub(UNARY as nat, Unary::Not),
            JsonRule::Minus => StepView::Sub(UNARY as nat, Unary::Minus),
            JsonRule::Plus => StepView::Sub(UNARY as nat, Unary::Plus),
        }
    }

    open spec fn infix_spec(
        &self,
        rule: JsonRule,
        left: Value,
        token: TokenView,
        bindings: Map<String, Value>,
    ) -> StepView<Value, Unary> {
        StepView::Fail(Failure::Syntax(not_infix()))
    }

    open spec fn resume_spec(
        &self,
        kept: Unary,
        event: EventView<Value>,
        bindings: Map<String, Value>,
    ) -> StepView<Value, Unary> {
        match event {
            EventView::Value(operand) => match kept {
                Unary::Not => StepView::Done(operand),
                Unary::Minus => match operand {
                    Value::Number(number) => StepView::Done(Value::Number(number.negated())),
                    _ => StepView::Fail(Failure::Interpreter(expects_number())),
                },
                Unary::Plus => match operand {
                    Value::Number(number) => StepView::Done(Value::Number(number)),
                    _ => StepView::Fail(Failure::Interpreter(expects_number())),
                },
            },
            _ => StepView::Fail(Failure::Syntax(unexpected_event())),
        }
    }

    fn prefix(&self, rule: &JsonRule, token: &Token, bindings: &HashMap<String, Value>) -> (step:
        Step<Value, Unary>) {
        match rule {
            JsonRule::Number => match read_number(token.value.as_str()) {
                Some(number) => Step::Done(Value::Number(number)),
                None => Step::Fail(
                    Error::InterpreterError(
                        String::from_str("cannot read ").concat(token.value.as_str()).concat(
                            " as a number",
                        ),
                    ),
                ),
            },
            JsonRule::Not => Step::Sub(UNARY, Unary::Not),
            JsonRule::Minus => Step::Sub(UNARY, Unary::Minus),
            JsonRule::Plus => Step::Sub(UNARY, Unary::Plus),
        }
    }

    fn infix(
        &self,
        rule: &JsonRule,
        left: Value,
        token: &Token,
        bindings: &HashMap<String, Value>,
    ) -> (step: Step<Value, Unary>) {
        Step::Fail(Error::syntax("this rule does not follow a value"))
    }

    fn resume(&self, kept: Unary, event: Event<Value>, bindings: &HashMap<String, Value>) -> (step:
        Step<Value, Unary>) {
        match event {
            Event::Value(operand) => match kept {
                Unary::Not => Step::Done(operand),
                Unary::Minus => match operand {
                    Value::Number(number) => Step::Done(Value::Number(number.negate())),
                    _ => Step::Fail(Error::interpreter("This operator expects a number")),
                },
                Unary::Plus => match operand {
                    Value::Number(number) => Step::Done(Value::Number(number)),
                    _ => Step::Fail(Error::interpreter("This operator expects a number")),
                },
            },
            _ => Step::Fail(Error::syntax("this rule takes no token")),
        }
    }
}

/// The text that is passed over between tokens.
pub open spec fn skip_pattern() -> Seq<char> {
    "\\s+"@
}

/// The patterns of the token types that are not plain symbols. The words
/// are not taken where a longer name goes on after them.
pub open spec fn patterns() -> Seq<(Seq<char>, Seq<char>)> {
    seq![
        ("number"@, "[0-9]+(?:\\.[0-9]+)?"@),
        ("identifier"@, "[a-zA-Z_][a-zA-Z_0-9]*"@),
        ("string"@, "'[^']*'|\"[^\"]*\""@),
        ("true"@, "true(?![a-zA-Z_0-9])"@),
        ("false"@, "false(?![a-zA-Z_0-9])"@),
        ("in"@, "in(?![a-zA-Z_0-9])"@),
        ("null"@, "null(?![a-zA-Z_0-9])"@),
    ]
}

/// The token types, in the order in which they are tried.
pub open spec fn token_types() -> Seq<Seq<char>> {
    seq![
        "**"@,
        "+"@,
        "-"@,
        "*"@,
        "/"@,
        "["@,
        "]"@,
        "."@,
        "("@,
        ")"@,
        "{"@,
        "}"@,
        ":"@,
        ","@,
        ">="@,
        "<="@,
        "<"@,
        ">"@,
        "=="@,
        "!="@,
        "!"@,
        "&&"@,
        "||"@,
        "true"@,
        "false"@,
        "in"@,
        "null"@,
        "number"@,
        "identifier"@,
        "string"@,
    ]
}

/// The precedence levels, from the loosest to the tightest. The level
/// below `**` is there for the right operand of `**`, and the last one for
/// the operand of a sign.
pub open spec fn levels() -> Seq<Seq<Seq<char>>> {
    seq![
        seq!["||"@],
        seq!["&&"@],
        seq!["in"@],
        seq!["=="@, "!="@],
        seq![">="@, "<="@, "<"@, ">"@],
        seq!["+"@, "-"@],
        seq!["*"@, "/"@],
        seq!["**-right-associative"@],
        seq!["**"@],
        seq!["["@, "."@],
        seq!["("@],
        seq!["unary"@],
    ]
}

/// The rules for the tokens that start an expression.
pub open spec fn prefix_rules() -> Seq<(Seq<char>, JsonRule)> {
    seq![
        ("number"@, JsonRule::Number),
        ("!"@, JsonRule::Not),
        ("-"@, JsonRule::Minus),
        ("+"@, JsonRule::Plus),
    ]
}

/// The lexicon of the expression language.
pub open spec fn lexicon() -> LexiconView {
    LexiconView { skip: skip_pattern(), kinds: crate::config::kinds_for(patterns(), token_types()) }
}

/// The rules for the tokens that follow a value: none so far.
pub open spec fn infix_rules() -> Seq<(Seq<char>, JsonRule)> {
    Seq::empty()
}

fn level1(a: &str) -> (level: Vec<String>)
    ensures
        crate::tables::names_view(level@) == seq![a@],
{
    let mut level: Vec<String> = Vec::new();
    proof {
        assert(crate::tables::names_view(level@) =~= Seq::<Seq<char>>::empty());
    }
    add_name(&mut level, a);
    level
}

fn level2(a: &str, b: &str) -> (level: Vec<String>)
    ensures
        crate::tables::names_view(level@) == seq![a@, b@],
{
    let mut level = level1(a);
    add_name(&mut level, b);
    level
}

fn make_patterns() -> (table: Vec<(String, String)>)
    ensures
        crate::config::patterns_view(table@) == patterns(),
{
    let mut table: Vec<(String, String)> = Vec::new();
    proof {
        assert(crate::config::patterns_view(table@) =~= Seq::<(Seq<char>, Seq<char>)>::empty());
    }
    add_pattern(&mut table, "number", "[0-9]+(?:\\.[0-9]+)?");
    add_pattern(&mut table, "identifier", "[a-zA-Z_][a-zA-Z_0-9]*");
    add_pattern(&mut table, "string", "'[^']*'|\"[^\"]*\"");
    // The words are not to be taken from the front of a longer name.
    add_pattern(&mut table, "true", "true(?![a-zA-Z_0-9])");
    add_pattern(&mut table, "false", "false(?![a-zA-Z_0-9])");
    add_pattern(&mut table, "in", "in(?![a-zA-Z_0-9])");
    add_pattern(&mut table, "null", "null(?![a-zA-Z_0-9])");
    table
}

fn make_token_types() -> (names: Vec<String>)
    ensures
        crate::tables::names_view(names@) == token_types(),
{
    let mut names: Vec<String> = Vec::new();
    proof {
        assert(crate::tables::names_view(names@) =~= Seq::<Seq<char>>::empty());
    }
    add_name(&mut names, "**");
    add_name(&mut names, "+");
    add_name(&mut names, "-");
    add_name(&mut names, "*");
    add_name(&mut names, "/");
    add_name(&mut names, "[");
    add_name(&mut names, "]");
    add_name(&mut names, ".");
    add_name(&mut names, "(");
    add_name(&mut names, ")");
    add_name(&mut names, "{");
    add_name(&mut names, "}");
    add_name(&mut names, ":");
    add_name(&mut names, ",");
    add_name(&mut names, ">=");
    add_name(&mut names, "<=");
    add_name(&mut names, "<");
    add_name(&mut names, ">");
    add_name(&mut names, "==");
    add_name(&mut names, "!=");
    add_name(&mut names, "!");
    add_name(&mut names, "&&");
    add_name(&mut names, "||");
    add_name(&mut names, "true");
    add_name(&mut names, "false");
    add_name(&mut names, "in");
    add_name(&mut names, "null");
    add_name(&mut names, "number");
    add_name(&mut names, "identifier");
    add_name(&mut names, "string");
    names
}

fn make_levels() -> (made: Vec<Vec<String>>)
    ensures
        crate::tables::levels_view(made@) == levels(),
{
    let mut made: Vec<Vec<String>> = Vec::new();
    proof {
        assert(crate::tables::levels_view(made@) =~= Seq::<Seq<Seq<char>>>::empty());
    }
    add_level(&mut made, level1("||"));
    add_level(&mut made, level1("&&"));
    add_level(&mut made, level1("in"));
    add_level(&mut made, level2("==", "!="));
    let mut comparisons = level2(">=", "<=");
    add_name(&mut comparisons, "<");
    add_name(&mut comparisons, ">");
    assert(crate::tables::names_view(comparisons@) == seq![">="@, "<="@, "<"@, ">"@]);
    add_level(&mut made, comparisons);
    add_level(&mut made, level2("+", "-"));
    add_level(&mut made, level2("*", "/"));
    add_level(&mut made, level1("**-right-associative"));
    add_level(&mut made, level1("**"));
    add_level(&mut made, level2("[", "."));
    add_level(&mut made, level1("("));
    add_level(&mut made, level1("unary"));
    made
}

fn make_prefix_rules() -> (table: Vec<(String, JsonRule)>)
    ensures
        crate::tables::table_view(table@) == prefix_rules(),
{
    let mut table: Vec<(String, JsonRule)> = Vec::new();
    proof {
        assert(crate::tables::table_view(table@) =~= Seq::<(Seq<char>, JsonRule)>::empty());
    }
    add_entry(&mut table, "number", JsonRule::Number);
    add_entry(&mut table, "!", JsonRule::Not);
    add_entry(&mut table, "-", JsonRule::Minus);
    add_entry(&mut table, "+", JsonRule::Plus);
    table
}

/// Makes the parser of the expression language: its lexicon, its
/// precedence levels, and the rules for number literals and for the marks
/// before them. No token has a rule for following a value yet. It fails
/// only where the regular expression engine refuses one of the patterns.
pub fn create_interpreter() -> (made: Result<PrattParser<JsonGrammar>, Error>)
    ensures
        match made {
            Ok(parser) => {
                &&& config_fault(skip_pattern(), patterns(), token_types(), levels()) is None
                &&& parser.holds(lexicon(), levels(), prefix_rules(), infix_rules(), JsonGrammar)
            },
            Err(e) => config_fault(skip_pattern(), patterns(), token_types(), levels()) == Some(e@),
        },
{
    let no_rules: Vec<(String, JsonRule)> = Vec::new();
    proof {
        assert(crate::tables::table_view(no_rules@) =~= infix_rules());
    }
    PrattParser::new(
        "\\s+",
        make_patterns(),
        make_token_types(),
        make_levels(),
        make_prefix_rules(),
        no_rules,
        JsonGrammar,
    )
}

/// True when an expression that has passed `index` tokens goes no
/// further: the tokens end there, and not with a failure, or the token
/// there binds no tighter than `min`.
pub open spec fn rests(stream: Stream, index: nat, min: nat) -> bool {
    if index < stream.tokens.len() {
        match level_of(levels(), stream.tokens[index as int].type_tag, 0) {
            None => true,
            Some(level) => level <= min,
        }
    } else {
        stream.tail is None
    }
}

/// True when the tokens from index `index` on are signs, one for each
/// entry of `minus` and a `-` where the entry is true, and then a literal
/// that writes `number`.
pub open spec fn signed_literal(
    stream: Stream,
    index: nat,
    minus: Seq<bool>,
    number: Decimal,
) -> bool
    decreases minus.len(),
{
    &&& index < stream.tokens.len()
    &&& if minus.len() == 0 {
        &&& stream.tokens[index as int].type_tag == "number"@
        &&& literal_value(stream.tokens[index as int].value) == Some(number)
    } else {
        &&& stream.tokens[index as int].type_tag == (if minus[0] {
            "-"@
        } else {
            "+"@
        })
        &&& signed_literal(stream, index + 1, minus.drop_first(), number)
    }
}

/// `number` under the signs `minus`, the first of them outermost.
pub open spec fn with_signs(minus: Seq<bool>, number: Decimal) -> Decimal
    decreases minus.len(),
{
    if minus.len() == 0 {
        number
    } else if minus[0] {
        with_signs(minus.drop_first(), number).negated()
    } else {
        with_signs(minus.drop_first(), number)
    }
}

/// The outcome of an expression that is the number `number` after `end`
/// tokens.
pub open spec fn number_at(number: Decimal, end: nat) -> Outcome<Value> {
    Outcome { result: Ok(Value::Number(number)), end }
}

/// The rules that the four token types with a rule stand for.
proof fn lemma_rules()
    ensures
        find_rule(prefix_rules(), "number"@, 0) == Some(JsonRule::Number),
        find_rule(prefix_rules(), "!"@, 0) == Some(JsonRule::Not),
        find_rule(prefix_rules(), "-"@, 0) == Some(JsonRule::Minus),
        find_rule(prefix_rules(), "+"@, 0) == Some(JsonRule::Plus),
{
    reveal_strlit("number");
    reveal_strlit("!");
    reveal_strlit("-");
    reveal_strlit("+");
    reveal_with_fuel(find_rule, 5);
    assert("number"@.len() == 6);
    assert("!"@[0] == '!');
    assert("-"@[0] == '-');
    assert("+"@[0] == '+');
}

/// The level `unary` is the last of the levels, and `UNARY` is its index.
pub proof fn lemma_unary_level()
    ensures
        levels().len() == UNARY + 1,
        levels()[UNARY as int] == seq!["unary"@],
{
    let last = levels()[UNARY as int];
    assert(last =~= seq!["unary"@]);
}

/// No token binds tighter than the operand of a sign.
proof fn lemma_rests_at_unary(stream: Stream, index: nat, min: nat)
    requires
        rests(stream, index, min),
    ensures
        rests(stream, index, UNARY as nat),
{
    if index < stream.tokens.len() {
        lemma_level_of_bound(levels(), stream.tokens[index as int].type_tag, 0);
        lemma_unary_level();
    }
}

/// A number literal is worth the number it writes: where the token at
/// `index` is a literal that writes `number`, and the expression goes no
/// further after it, the expression is that number.
pub proof fn law_number_literal(
    parser: PrattParser<JsonGrammar>,
    stream: Stream,
    bindings: Map<String, Value>,
    index: nat,
    min: nat,
    number: Decimal,
)
    requires
        parser.holds(lexicon(), levels(), prefix_rules(), infix_rules(), JsonGrammar),
        signed_literal(stream, index, Seq::<bool>::empty(), number),
        rests(stream, index + 1, min),
    ensures
        parser.expression(stream, bindings, index, min) == number_at(number, index + 1),
{
    lemma_rules();
}

/// A `-` negates its operand: where the token at `index` is `-`, the
/// expression after it at the precedence of a sign is the number `operand`
/// and ends after `end` tokens, and the expression goes no further there,
/// the expression is `operand` with the other sign.
pub proof fn law_minus_negates(
    parser: PrattParser<JsonGrammar>,
    stream: Stream,
    bindings: Map<String, Value>,
    index: nat,
    min: nat,
    operand: Decimal,
    end: nat,
)
    requires
        parser.holds(lexicon(), levels(), prefix_rules(), infix_rules(), JsonGrammar),
        index < stream.tokens.len(),
        stream.tokens[index as int].type_tag == "-"@,
        parser.expression(stream, bindings, index + 1, UNARY as nat) == number_at(operand, end),
        rests(stream, end, min),
    ensures
        parser.expression(stream, bindings, index, min) == number_at(operand.negated(), end),
{
    lemma_rules();
    parser.lemma_expression_forward(stream, bindings, index + 1, UNARY as nat);
    let step = JsonGrammar.prefix_spec(JsonRule::Minus, stream.tokens[index as int], bindings);
    let after = JsonGrammar.resume_spec(
        Unary::Minus,
        EventView::Value(Value::Number(operand)),
        bindings,
    );
    assert(parser.drive(stream, bindings, step, index + 1) == parser.drive(
        stream,
        bindings,
        after,
        end,
    ));
    assert(advanced(stream, index, end));
}

/// A `+` leaves its operand as it is: where the token at `index` is `+`,
/// the expression after it at the precedence of a sign is the number
/// `operand` and ends after `end` tokens, and the expression goes no
/// further there, the expression is `operand`.
pub proof fn law_plus_is_identity(
    parser: PrattParser<JsonGrammar>,
    stream: Stream,
    bindings: Map<String, Value>,
    index: nat,
    min: nat,
    operand: Decimal,
    end: nat,
)
    requires
        parser.holds(lexicon(), levels(), prefix_rules(), infix_rules(), JsonGrammar),
        index < stream.tokens.len(),
        stream.tokens[index as int].type_tag == "+"@,
        parser.expression(stream, bindings, index + 1, UNARY as nat) == number_at(operand, end),
        rests(stream, end, min),
    ensures
        parser.expression(stream, bindings, index, min) == number_at(operand, end),
{
    lemma_rules();
    parser.lemma_expression_forward(stream, bindings, index + 1, UNARY as nat);
    let step = JsonGrammar.prefix_spec(JsonRule::Plus, stream.tokens[index as int], bindings);
    let after = JsonGrammar.resume_spec(
        Unary::Plus,
        EventView::Value(Value::Number(operand)),
        bindings,
    );
    assert(parser.drive(stream, bindings, step, index + 1) == parser.drive(
        stream,
        bindings,
        after,
        end,
    ));
    assert(advanced(stream, index, end));
}

/// A literal under any chain of signs is worth the number it writes, with
/// its sign changed once for every `-` of the chain.
pub proof fn law_signed_literal(
    parser: PrattParser<JsonGrammar>,
    stream: Stream,
    bindings: Map<String, Value>,
    index: nat,
    min: nat,
    minus: Seq<bool>,
    number: Decimal,
)
    requires
        parser.holds(lexicon(), levels(), prefix_rules(), infix_rules(), JsonGrammar),
        signed_literal(stream, index, minus, number),
        rests(stream, index + minus.len() + 1, min),
    ensures
        parser.expression(stream, bindings, index, min) == number_at(
            with_signs(minus, number),
            index + minus.len() + 1,
        ),
    decreases minus.len(),
{
    let end = index + minus.len() + 1;
    if minus.len() == 0 {
        law_number_literal(parser, stream, bindings, index, min, number);
    } else {
        let inner = with_signs(minus.drop_first(), number);
        lemma_rests_at_unary(stream, end, min);
        law_signed_literal(
            parser,
            stream,
            bindings,
            index + 1,
            UNARY as nat,
            minus.drop_first(),
            number,
        );
        if minus[0] {
            law_minus_negates(parser, stream, bindings, index, min, inner, end);
        } else {
            law_plus_is_identity(parser, stream, bindings, index, min, inner, end);
        }
    }
}

/// Two `-` in a row cancel: a literal under two of them is worth the number
/// it writes.
pub proof fn law_double_minus_cancels(
    parser: PrattParser<JsonGrammar>,
    stream: Stream,
    bindings: Map<String, Value>,
    index: nat,
    min: nat,
    number: Decimal,
)
    requires
        parser.holds(lexicon(), levels(), prefix_rules(), infix_rules(), JsonGrammar),
        signed_literal(stream, index, seq![true, true], number),
        rests(stream, index + 3, min),
    ensures
        parser.expression(stream, bindings, index, min) == number_at(number, index + 3),
{
    let minus = seq![true, true];
    law_signed_literal(parser, stream, bindings, index, min, minus, number);
    assert(minus.drop_first().drop_first() =~= Seq::<bool>::empty());
    reveal_with_fuel(with_signs, 3);
    assert(with_signs(minus, number) == number.negated().negated());
}

/// An input that is a literal under a chain of signs, and nothing more,
/// parses to the number that the literal writes, with its sign changed
/// once for every `-` of the chain.
pub proof fn law_signed_number_parses(
    parser: PrattParser<JsonGrammar>,
    input: Seq<char>,
    bindings: Map<String, Value>,
    min: nat,
    minus: Seq<bool>,
    number: Decimal,
)
    requires
        parser.holds(lexicon(), levels(), prefix_rules(), infix_rules(), JsonGrammar),
        signed_literal(tokens_of(lexicon(), input), 0, minus, number),
        tokens_of(lexicon(), input).tokens.len() == minus.len() + 1,
        tokens_of(lexicon(), input).tail is None,
    ensures
        parser.parse_spec(input, bindings, min) == Ok::<Value, Failure>(
            Value::Number(with_signs(minus, number)),
        ),
{
    law_signed_literal(parser, tokens_of(lexicon(), input), bindings, 0, min, minus, number);
}

} // verus!
