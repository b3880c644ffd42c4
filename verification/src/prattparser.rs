//! The precedence-climbing engine.
//!
//! The engine owns the tables: which rule stands for a token at the start of
//! an expression, which rule stands for it after a value, and how tightly
//! each token binds. What a rule means is the grammar's business. A rule
//! never calls the engine: it answers with a [`Step`], and where it needs an
//! operand or a further token it says so and is resumed with it.
//!
//! The engine works on a stream of tokens. What it makes of a stream is a
//! function of the stream, the tables and the grammar alone:
//! [`PrattParser::expression`] says which, and the laws at the end of this
//! file are proved of it.

use std::collections::HashMap;
use vstd::prelude::*;
use crate::config::{check_levels, config_fault, kinds_for, make_kinds, patterns_view};
use crate::errors::{Error, Failure};
use crate::matcher::pattern_compiles;
use crate::tables::{find_rule, level_of, levels_view, lookup, names_view, precedence, table_view};
use crate::tokenizer::{
    tokens_of, Lexicon, LexiconView, Stream, Token, TokenBuffer, TokenStream, TokenView,
    Tokenizer,
};

verus! {

/// What a rule wants next.
pub enum Step<V, K> {
    /// The rule is finished, with this value.
    Done(V),
    /// The rule gives up, and the whole parse with it.
    Fail(Error),
    /// Parse an expression that stops before any token binding no tighter
    /// than this precedence, then resume with its value.
    Sub(usize, K),
    /// Take the next token, then resume with it.
    Take(K),
    /// Look at the next token and leave it where it is, then resume with
    /// it, or with the news that the input has ended. A rule that has just
    /// looked may not look again: its next step takes a token, parses an
    /// expression, or ends the rule.
    Peek(K),
}

/// A [`Step`] over the views of the value and of what is kept.
pub enum StepView<V, K> {
    Done(V),
    Fail(Failure),
    Sub(nat, K),
    Take(K),
    Peek(K),
}

impl<V: View, K: View> View for Step<V, K> {
    type V = StepView<V::V, K::V>;

    open spec fn view(&self) -> StepView<V::V, K::V> {
        match self {
            Step::Done(v) => StepView::Done(v@),
            Step::Fail(e) => StepView::Fail(e@),
            Step::Sub(level, kept) => StepView::Sub(*level as nat, kept@),
            Step::Take(kept) => StepView::Take(kept@),
            Step::Peek(kept) => StepView::Peek(kept@),
        }
    }
}

/// What the engine brings back to a rule that asked for it.
pub enum Event<V> {
    /// The value of the expression that the rule asked for.
    Value(V),
    /// The token that the rule asked for.
    Token(Token),
    /// The token that comes next, which the rule asked to look at; none
    /// where the input has ended.
    Ahead(Option<Token>),
}

/// An [`Event`] over views.
pub enum EventView<V> {
    Value(V),
    Token(TokenView),
    Ahead(Option<TokenView>),
}

impl<V: View> View for Event<V> {
    type V = EventView<V::V>;

    open spec fn view(&self) -> EventView<V::V> {
        match self {
            Event::Value(v) => EventView::Value(v@),
            Event::Token(t) => EventView::Token(t@),
            Event::Ahead(ahead) => EventView::Ahead(
                match ahead {
                    Some(t) => Some(t@),
                    None => None,
                },
            ),
        }
    }
}

/// The meaning of the rules. An implementation says, as a function of what
/// it is given, which step each rule takes; the engine does the rest: it
/// parses the operands that a rule asks for, hands it the tokens it asks
/// for, and lets the first failure end the parse.
///
/// Each method has a function that says what it returns. The functions
/// speak of values and of what is kept by their views, and of tokens by
/// their text, so that two runs on the same input take the same steps.
pub trait Grammar {
    /// What parsing produces.
    type Value: View;

    /// What names a rule in the tables.
    type Rule;

    /// What a rule keeps while the engine works for it.
    type Kept: View;

    /// The step of `rule` for a token that starts an expression.
    spec fn prefix_spec(
        &self,
        rule: Self::Rule,
        token: TokenView,
        bindings: Map<String, Self::Value>,
    ) -> StepView<<Self::Value as View>::V, <Self::Kept as View>::V>;

    /// The step of `rule` for a token that follows the value `left`.
    spec fn infix_spec(
        &self,
        rule: Self::Rule,
        left: <Self::Value as View>::V,
        token: TokenView,
        bindings: Map<String, Self::Value>,
    ) -> StepView<<Self::Value as View>::V, <Self::Kept as View>::V>;

    /// The step of a rule that kept `kept` and is brought `event`.
    spec fn resume_spec(
        &self,
        kept: <Self::Kept as View>::V,
        event: EventView<<Self::Value as View>::V>,
        bindings: Map<String, Self::Value>,
    ) -> StepView<<Self::Value as View>::V, <Self::Kept as View>::V>;

    /// Takes up `rule` for `token`, which starts an expression.
    fn prefix(
        &self,
        rule: &Self::Rule,
        token: &Token,
        bindings: &HashMap<String, Self::Value>,
    ) -> (step: Step<Self::Value, Self::Kept>)
        ensures
            step@ == self.prefix_spec(*rule, token@, bindings@),
    ;

    /// Takes up `rule` for `token`, which follows the value `left`.
    fn infix(
        &self,
        rule: &Self::Rule,
        left: Self::Value,
        token: &Token,
        bindings: &HashMap<String, Self::Value>,
    ) -> (step: Step<Self::Value, Self::Kept>)
        ensures
            step@ == self.infix_spec(*rule, left@, token@, bindings@),
    ;

    /// Goes on with the rule that kept `kept`, now that `event` is there.
    fn resume(
        &self,
        kept: Self::Kept,
        event: Event<Self::Value>,
        bindings: &HashMap<String, Self::Value>,
    ) -> (step: Step<Self::Value, Self::Kept>)
        ensures
            step@ == self.resume_spec(kept@, event@, bindings@),
    ;
}

/// The view of the values of grammar `G`.
pub type Val<G> = <<G as Grammar>::Value as View>::V;

/// The view of what the rules of grammar `G` keep.
pub type Keep<G> = <<G as Grammar>::Kept as View>::V;

/// How a parse ended: the value or the failure, and the number of tokens
/// passed by then.
pub struct Outcome<V> {
    pub result: Result<V, Failure>,
    pub end: nat,
}

/// The message for an expression that starts where the input ends.
pub open spec fn end_of_input() -> Seq<char> {
    "unexpected end of input"@
}

/// The message for a token that cannot start an expression.
pub open spec fn no_prefix_rule(tag: Seq<char>) -> Seq<char> {
    "no prefix rule for token "@ + tag
}

/// The message for a token that binds but cannot continue an expression.
pub open spec fn no_infix_rule(tag: Seq<char>) -> Seq<char> {
    "no infix rule for token "@ + tag
}

/// The message for a rule that looks at the next token twice in a row.
pub open spec fn looked_twice() -> Seq<char> {
    "a rule looked at the same token twice"@
}

/// The number of tokens of `stream` from index `index` on.
pub open spec fn ahead(stream: Stream, index: nat) -> nat {
    if index <= stream.tokens.len() {
        (stream.tokens.len() - index) as nat
    } else {
        0
    }
}

/// True when fewer tokens of `stream` are left at `to` than at `from`.
pub open spec fn advanced(stream: Stream, from: nat, to: nat) -> bool {
    ahead(stream, to) < ahead(stream, from)
}

/// What a parse fails with where it needs a token and the stream has no
/// more: the failure that ended the stream, or the news that the input has
/// ended too early.
pub open spec fn ending(stream: Stream) -> Failure {
    match stream.tail {
        Some(failure) => failure,
        None => Failure::Syntax(end_of_input()),
    }
}

/// A configured parser: the lexicon, the precedence levels from the loosest
/// to the tightest, the two rule tables, and the grammar that gives the
/// rules their meaning.
pub struct PrattParser<G: Grammar> {
    lexicon: Lexicon,
    levels: Vec<Vec<String>>,
    prefix_rules: Vec<(String, G::Rule)>,
    infix_rules: Vec<(String, G::Rule)>,
    grammar: G,
}

impl<G: Grammar> PrattParser<G> {
    /// The lexicon that cuts the input.
    pub closed spec fn lexicon(&self) -> LexiconView {
        self.lexicon@
    }

    /// The precedence levels; the index of a level is its precedence.
    pub closed spec fn levels(&self) -> Seq<Seq<Seq<char>>> {
        levels_view(self.levels@)
    }

    /// The rules for tokens that start an expression.
    pub closed spec fn prefix_table(&self) -> Seq<(Seq<char>, G::Rule)> {
        table_view(self.prefix_rules@)
    }

    /// The rules for tokens that follow a value.
    pub closed spec fn infix_table(&self) -> Seq<(Seq<char>, G::Rule)> {
        table_view(self.infix_rules@)
    }

    /// The grammar.
    pub closed spec fn grammar(&self) -> G {
        self.grammar
    }

    /// True for a parser with these tables and this grammar.
    pub open spec fn holds(
        &self,
        lexicon: LexiconView,
        levels: Seq<Seq<Seq<char>>>,
        prefix_table: Seq<(Seq<char>, G::Rule)>,
        infix_table: Seq<(Seq<char>, G::Rule)>,
        grammar: G,
    ) -> bool {
        &&& self.lexicon() == lexicon
        &&& self.levels() == levels
        &&& self.prefix_table() == prefix_table
        &&& self.infix_table() == infix_table
        &&& self.grammar() == grammar
    }

    /// The expression that starts with the token at `index`, up to the
    /// first token that binds no tighter than `min`, and where it ends.
    pub open spec fn expression(
        &self,
        stream: Stream,
        bindings: Map<String, G::Value>,
        index: nat,
        min: nat,
    ) -> Outcome<Val<G>>
        decreases ahead(stream, index), 0nat, 0nat,
    {
        if index < stream.tokens.len() {
            let token = stream.tokens[index as int];
            match find_rule(self.prefix_table(), token.type_tag, 0) {
                None => Outcome {
                    result: Err(Failure::Syntax(no_prefix_rule(token.type_tag))),
                    end: index + 1,
                },
                Some(rule) => {
                    let first = self.drive(
                        stream,
                        bindings,
                        self.grammar().prefix_spec(rule, token, bindings),
                        index + 1,
                    );
                    match first.result {
                        Ok(left) => if advanced(stream, index, first.end) {
                            self.climb(stream, bindings, left, first.end, min)
                        } else {
                            first
                        },
                        Err(_) => first,
                    }
                },
            }
        } else {
            Outcome { result: Err(ending(stream)), end: index }
        }
    }

    /// Where the rule that took `step` before the token at `index` ends,
    /// and with what.
    pub open spec fn drive(
        &self,
        stream: Stream,
        bindings: Map<String, G::Value>,
        step: StepView<Val<G>, Keep<G>>,
        index: nat,
    ) -> Outcome<Val<G>>
        decreases ahead(stream, index), 1nat, 2nat,
    {
        self.drive_on(stream, bindings, step, index, false)
    }

    /// Where the rule that took `step` before the token at `index` ends,
    /// and with what, given whether the rule has just looked at that token.
    pub open spec fn drive_on(
        &self,
        stream: Stream,
        bindings: Map<String, G::Value>,
        step: StepView<Val<G>, Keep<G>>,
        index: nat,
        looked: bool,
    ) -> Outcome<Val<G>>
        decreases ahead(stream, index), 1nat, (if looked {
            0nat
        } else {
            1nat
        }),
    {
        match step {
            StepView::Done(value) => Outcome { result: Ok(value), end: index },
            StepView::Fail(failure) => Outcome { result: Err(failure), end: index },
            StepView::Sub(level, kept) => {
                let sub = self.expression(stream, bindings, index, level);
                match sub.result {
                    Ok(value) => if advanced(stream, index, sub.end) {
                        self.drive_on(
                            stream,
                            bindings,
                            self.grammar().resume_spec(kept, EventView::Value(value), bindings),
                            sub.end,
                            false,
                        )
                    } else {
                        sub
                    },
                    Err(_) => sub,
                }
            },
            StepView::Take(kept) => if index < stream.tokens.len() {
                self.drive_on(
                    stream,
                    bindings,
                    self.grammar().resume_spec(
                        kept,
                        EventView::Token(stream.tokens[index as int]),
                        bindings,
                    ),
                    index + 1,
                    false,
                )
            } else {
                Outcome { result: Err(ending(stream)), end: index }
            },
            StepView::Peek(kept) => if looked {
                Outcome { result: Err(Failure::Syntax(looked_twice())), end: index }
            } else if index < stream.tokens.len() {
                self.drive_on(
                    stream,
                    bindings,
                    self.grammar().resume_spec(
                        kept,
                        EventView::Ahead(Some(stream.tokens[index as int])),
                        bindings,
                    ),
                    index,
                    true,
                )
            } else {
                match stream.tail {
                    Some(failure) => Outcome { result: Err(failure), end: index },
                    None => self.drive_on(
                        stream,
                        bindings,
                        self.grammar().resume_spec(kept, EventView::Ahead(None), bindings),
                        index,
                        true,
                    ),
                }
            },
        }
    }

    /// The expression whose value so far is `left`, continued from the
    /// token at `index` for as long as the next token binds tighter than
    /// `min`.
    pub open spec fn climb(
        &self,
        stream: Stream,
        bindings: Map<String, G::Value>,
        left: Val<G>,
        index: nat,
        min: nat,
    ) -> Outcome<Val<G>>
        decreases ahead(stream, index), 2nat, 0nat,
    {
        if index < stream.tokens.len() {
            let token = stream.tokens[index as int];
            match level_of(self.levels(), token.type_tag, 0) {
                None => Outcome { result: Ok(left), end: index },
                Some(level) => if level <= min {
                    Outcome { result: Ok(left), end: index }
                } else {
                    match find_rule(self.infix_table(), token.type_tag, 0) {
                        None => Outcome {
                            result: Err(Failure::Syntax(no_infix_rule(token.type_tag))),
                            end: index + 1,
                        },
                        Some(rule) => {
                            let next = self.drive(
                                stream,
                                bindings,
                                self.grammar().infix_spec(rule, left, token, bindings),
                                index + 1,
                            );
                            match next.result {
                                Ok(value) => if advanced(stream, index, next.end) {
                                    self.climb(stream, bindings, value, next.end, min)
                                } else {
                                    next
                                },
                                Err(_) => next,
                            }
                        },
                    }
                },
            }
        } else {
            match stream.tail {
                Some(failure) => Outcome { result: Err(failure), end: index },
                None => Outcome { result: Ok(left), end: index },
            }
        }
    }

    /// What parsing the expression at the start of `stream` gives.
    pub open spec fn stream_spec(
        &self,
        stream: Stream,
        bindings: Map<String, G::Value>,
        min: nat,
    ) -> Result<Val<G>, Failure> {
        self.expression(stream, bindings, 0, min).result
    }

    /// What parsing the expression at the start of `input` gives.
    pub open spec fn parse_spec(
        &self,
        input: Seq<char>,
        bindings: Map<String, G::Value>,
        min: nat,
    ) -> Result<Val<G>, Failure> {
        self.stream_spec(tokens_of(self.lexicon(), input), bindings, min)
    }
}

/// True when `result`, reached after `end` tokens, is what `outcome` says.
pub open spec fn agrees<V: View>(result: Result<V, Error>, end: nat, outcome: Outcome<V::V>) -> bool {
    match result {
        Ok(value) => outcome.result == Ok::<V::V, Failure>(value@) && outcome.end == end,
        Err(e) => outcome.result == Err::<V::V, Failure>(e@),
    }
}

/// True when `result` is what `expected` says.
pub open spec fn matches_result<V: View>(
    result: Result<V, Error>,
    expected: Result<V::V, Failure>,
) -> bool {
    match result {
        Ok(value) => expected == Ok::<V::V, Failure>(value@),
        Err(e) => expected == Err::<V::V, Failure>(e@),
    }
}

fn end_of_input_error() -> (e: Error)
    ensures
        e@ == Failure::Syntax(end_of_input()),
{
    Error::syntax("unexpected end of input")
}

fn no_prefix_rule_error(tag: &String) -> (e: Error)
    ensures
        e@ == Failure::Syntax(no_prefix_rule(tag@)),
{
    Error::SyntaxError(String::from_str("no prefix rule for token ").concat(tag.as_str()))
}

fn no_infix_rule_error(tag: &String) -> (e: Error)
    ensures
        e@ == Failure::Syntax(no_infix_rule(tag@)),
{
    Error::SyntaxError(String::from_str("no infix rule for token ").concat(tag.as_str()))
}

/// The state of one parse: the parser, the bindings that the rules may
/// read, the tokens, which are cut from the input as the parse reaches
/// them, and the number of them already passed. It is handed from call to
/// call by exclusive reference, and it only moves forward.
pub struct Context<'a, G: Grammar> {
    parser: &'a PrattParser<G>,
    bindings: &'a HashMap<String, G::Value>,
    buffer: TokenBuffer<'a>,
    index: usize,
}

impl<'a, G: Grammar> Context<'a, G> {
    /// The parser at work.
    pub closed spec fn parser(&self) -> PrattParser<G> {
        *self.parser
    }

    /// The bindings that the rules may read.
    pub closed spec fn bindings(&self) -> Map<String, G::Value> {
        self.bindings@
    }

    /// All the tokens, those still to be cut included.
    pub closed spec fn stream(&self) -> Stream {
        self.buffer.stream()
    }

    /// The number of tokens already passed.
    pub closed spec fn position(&self) -> nat {
        self.index as nat
    }

    /// No more tokens are passed than there are.
    pub closed spec fn wf(&self) -> bool {
        &&& self.buffer.wf()
        &&& self.index <= self.buffer.stream().tokens.len()
    }

    /// True when `self` differs from `before` at most in the tokens
    /// passed, which have not become fewer.
    pub open spec fn follows(&self, before: &Self) -> bool {
        &&& self.wf()
        &&& self.parser() == before.parser()
        &&& self.bindings() == before.bindings()
        &&& self.stream() == before.stream()
        &&& before.position() <= self.position() <= self.stream().tokens.len()
    }

    /// The number of tokens still ahead.
    pub open spec fn left(&self) -> nat {
        ahead(self.stream(), self.position())
    }

    /// A context before the first token of `input`.
    pub fn new(
        parser: &'a PrattParser<G>,
        input: &'a str,
        bindings: &'a HashMap<String, G::Value>,
    ) -> (context: Self)
        ensures
            context.wf(),
            context.parser() == *parser,
            context.bindings() == bindings@,
            context.stream() == tokens_of(parser.lexicon(), input@),
            context.position() == 0,
    {
        Context { parser, bindings, buffer: TokenBuffer::new(&parser.lexicon, input), index: 0 }
    }

    /// A context before the first token of `stream`.
    pub fn over(
        parser: &'a PrattParser<G>,
        stream: TokenStream,
        bindings: &'a HashMap<String, G::Value>,
    ) -> (context: Self)
        ensures
            context.wf(),
            context.parser() == *parser,
            context.bindings() == bindings@,
            context.stream() == stream@,
            context.position() == 0,
    {
        Context {
            parser,
            bindings,
            buffer: TokenBuffer::filled(stream),
            index: 0,
        }
    }

    /// The number of tokens already passed.
    pub fn offset(&self) -> (n: usize)
        ensures
            n == self.position(),
    {
        self.index
    }

    /// Cuts the next token from the input if that is still to be done, and
    /// tells whether there is a next token.
    fn more(&mut self) -> (there: bool)
        requires
            old(self).wf(),
        ensures
            final(self).follows(old(self)),
            final(self).position() == old(self).position(),
            there == (old(self).position() < old(self).stream().tokens.len()),
            there ==> final(self).position() < final(self).buffer.cut() <= usize::MAX,
            !there ==> final(self).buffer.done(),
    {
        self.buffer.reach(self.index)
    }

    /// The failure for a token that is needed where there is none.
    fn ending_error(&self) -> (e: Error)
        requires
            self.wf(),
            self.buffer.done(),
        ensures
            e@ == ending(self.stream()),
    {
        match self.buffer.failure() {
            Some(e) => e.copy(),
            None => end_of_input_error(),
        }
    }

    /// Parses one expression from the next token on: a token with a prefix
    /// rule, then every token that binds tighter than `min_precedence`,
    /// each with its infix rule. The first failure ends the parse.
    pub fn parse(&mut self, min_precedence: usize) -> (result: Result<G::Value, Error>)
        requires
            old(self).wf(),
        ensures
            final(self).follows(old(self)),
            result is Ok ==> final(self).position() > old(self).position(),
            agrees(
                result,
                final(self).position(),
                old(self).parser().expression(
                    old(self).stream(),
                    old(self).bindings(),
                    old(self).position(),
                    min_precedence as nat,
                ),
            ),
        decreases old(self).left(), 0nat, 0nat,
    {
        if !self.more() {
            return Err(self.ending_error());
        }
        let token = self.buffer.token(self.index);
        self.index = self.index + 1;
        let rule = match lookup(&self.parser.prefix_rules, &token.type_tag) {
            None => {
                return Err(no_prefix_rule_error(&token.type_tag));
            },
            Some(rule) => rule,
        };
        let step = self.parser.grammar.prefix(rule, token, self.bindings);
        match self.drive(step) {
            Err(e) => Err(e),
            Ok(left) => self.climb(left, min_precedence),
        }
    }

    /// Carries a rule through: fetches what each of its steps asks for and
    /// resumes it, until it is finished or gives up.
    fn drive(&mut self, first: Step<G::Value, G::Kept>) -> (result: Result<G::Value, Error>)
        requires
            old(self).wf(),
        ensures
            final(self).follows(old(self)),
            agrees(
                result,
                final(self).position(),
                old(self).parser().drive(
                    old(self).stream(),
                    old(self).bindings(),
                    first@,
                    old(self).position(),
                ),
            ),
        decreases old(self).left(), 1nat, 2nat,
    {
        let ghost goal = self.parser().drive(
            self.stream(),
            self.bindings(),
            first@,
            self.position(),
        );
        let mut step = first;
        let mut looked = false;
        loop
            invariant
                self.follows(old(self)),
                goal == old(self).parser().drive(
                    old(self).stream(),
                    old(self).bindings(),
                    first@,
                    old(self).position(),
                ),
                goal == self.parser().drive_on(
                    self.stream(),
                    self.bindings(),
                    step@,
                    self.position(),
                    looked,
                ),
            decreases self.left(), (if looked {
                0nat
            } else {
                1nat
            }),
        {
            match step {
                Step::Done(value) => {
                    return Ok(value);
                },
                Step::Fail(e) => {
                    return Err(e);
                },
                Step::Sub(level, kept) => {
                    match self.parse(level) {
                        Err(e) => {
                            return Err(e);
                        },
                        Ok(value) => {
                            step =
                            self.parser.grammar.resume(kept, Event::Value(value), self.bindings);
                            looked = false;
                        },
                    }
                },
                Step::Take(kept) => {
                    if !self.more() {
                        return Err(self.ending_error());
                    }
                    let token = self.buffer.token(self.index).copy();
                    self.index = self.index + 1;
                    step = self.parser.grammar.resume(kept, Event::Token(token), self.bindings);
                    looked = false;
                },
                Step::Peek(kept) => {
                    if looked {
                        return Err(Error::syntax("a rule looked at the same token twice"));
                    }
                    let ahead = if self.more() {
                        Some(self.buffer.token(self.index).copy())
                    } else {
                        match self.buffer.failure() {
                            Some(e) => {
                                return Err(e.copy());
                            },
                            None => None,
                        }
                    };
                    step = self.parser.grammar.resume(kept, Event::Ahead(ahead), self.bindings);
                    looked = true;
                },
            }
        }
    }

    /// Continues an expression whose value so far is `first`: while the next
    /// token binds tighter than `min_precedence`, takes it and lets its
    /// infix rule make the new value.
    fn climb(&mut self, first: G::Value, min_precedence: usize) -> (result: Result<
        G::Value,
        Error,
    >)
        requires
            old(self).wf(),
        ensures
            final(self).follows(old(self)),
            agrees(
                result,
                final(self).position(),
                old(self).parser().climb(
                    old(self).stream(),
                    old(self).bindings(),
                    first@,
                    old(self).position(),
                    min_precedence as nat,
                ),
            ),
        decreases old(self).left(), 2nat, 0nat,
    {
        let ghost goal = self.parser().climb(
            self.stream(),
            self.bindings(),
            first@,
            self.position(),
            min_precedence as nat,
        );
        let mut left = first;
        loop
            invariant
                self.follows(old(self)),
                goal == old(self).parser().climb(
                    old(self).stream(),
                    old(self).bindings(),
                    first@,
                    old(self).position(),
                    min_precedence as nat,
                ),
                goal == self.parser().climb(
                    self.stream(),
                    self.bindings(),
                    left@,
                    self.position(),
                    min_precedence as nat,
                ),
            decreases self.left(),
        {
            if !self.more() {
                match self.buffer.failure() {
                    Some(e) => {
                        return Err(e.copy());
                    },
                    None => {
                        return Ok(left);
                    },
                }
            }
            let token = self.buffer.token(self.index);
            match precedence(&self.parser.levels, &token.type_tag) {
                None => {
                    return Ok(left);
                },
                Some(level) => {
                    if level <= min_precedence {
                        return Ok(left);
                    }
                },
            }
            self.index = self.index + 1;
            let rule = match lookup(&self.parser.infix_rules, &token.type_tag) {
                None => {
                    return Err(no_infix_rule_error(&token.type_tag));
                },
                Some(rule) => rule,
            };
            let step = self.parser.grammar.infix(rule, left, token, self.bindings);
            match self.drive(step) {
                Err(e) => {
                    return Err(e);
                },
                Ok(value) => {
                    left = value;
                },
            }
        }
    }
}

impl<G: Grammar> PrattParser<G> {
    /// Makes a parser, or says what is wrong with the configuration: a
    /// skip pattern or a token type's pattern that is no regular
    /// expression, a token type without a pattern whose name is not made of
    /// punctuation alone, a name in a precedence level of several names
    /// that is no token type. The token types are tried in the order given.
    pub fn new(
        skip_pattern: &str,
        patterns: Vec<(String, String)>,
        token_types: Vec<String>,
        precedence_levels: Vec<Vec<String>>,
        prefix_rules: Vec<(String, G::Rule)>,
        infix_rules: Vec<(String, G::Rule)>,
        grammar: G,
    ) -> (made: Result<PrattParser<G>, Error>)
        ensures
            match made {
                Ok(parser) => {
                    &&& config_fault(
                        skip_pattern@,
                        patterns_view(patterns@),
                        names_view(token_types@),
                        levels_view(precedence_levels@),
                    ) is None
                    &&& parser.holds(
                        LexiconView {
                            skip: skip_pattern@,
                            kinds: kinds_for(patterns_view(patterns@), names_view(token_types@)),
                        },
                        levels_view(precedence_levels@),
                        table_view(prefix_rules@),
                        table_view(infix_rules@),
                        grammar,
                    )
                },
                Err(e) => config_fault(
                    skip_pattern@,
                    patterns_view(patterns@),
                    names_view(token_types@),
                    levels_view(precedence_levels@),
                ) == Some(e@),
            },
    {
        if !pattern_compiles(skip_pattern) {
            return Err(Error::syntax("the skip pattern is not a regular expression"));
        }
        let kinds = match make_kinds(&patterns, &token_types) {
            Err(e) => {
                return Err(e);
            },
            Ok(kinds) => kinds,
        };
        match check_levels(&token_types, &precedence_levels) {
            Some(e) => {
                return Err(e);
            },
            None => {},
        }
        let lexicon = Lexicon { skip: String::from_str(skip_pattern), kinds };
        Ok(PrattParser { lexicon, levels: precedence_levels, prefix_rules, infix_rules, grammar })
    }

    /// A cursor over the tokens of `input`, cut by this parser's lexicon.
    pub fn tokens<'a>(&'a self, input: &'a str) -> (tokenizer: Tokenizer<'a>)
        ensures
            tokenizer.wf(),
            tokenizer.lexicon() == self.lexicon(),
            tokenizer.input() == input@,
            tokenizer.position() == 0,
    {
        Tokenizer::new(&self.lexicon, input)
    }

    /// Cuts the whole of `input` into tokens by this parser's lexicon.
    pub fn tokenize(&self, input: &str) -> (stream: TokenStream)
        ensures
            stream@ == tokens_of(self.lexicon(), input@),
    {
        self.lexicon.tokenize(input)
    }

    /// Parses the expression at the start of `stream`. Tokens that bind no
    /// tighter than `min_precedence` end it, and so does the end of the
    /// stream; what follows the expression is not looked at.
    pub fn parse_stream(
        &self,
        stream: TokenStream,
        bindings: HashMap<String, G::Value>,
        min_precedence: usize,
    ) -> (result: Result<G::Value, Error>)
        ensures
            matches_result(result, self.stream_spec(stream@, bindings@, min_precedence as nat)),
    {
        let mut context = Context::over(self, stream, &bindings);
        context.parse(min_precedence)
    }

    /// Parses the expression at the start of `input`. The tokens are cut
    /// as the parse reaches them: tokens that bind no tighter than
    /// `min_precedence` end the expression, and so does the end of the
    /// input; what follows the expression is not looked at, and a place
    /// there where no token can be cut does no harm.
    pub fn parse(
        &self,
        input: &str,
        bindings: HashMap<String, G::Value>,
        min_precedence: usize,
    ) -> (result: Result<G::Value, Error>)
        ensures
            matches_result(result, self.parse_spec(input@, bindings@, min_precedence as nat)),
    {
        let mut context = Context::new(self, input, &bindings);
        context.parse(min_precedence)
    }
}

impl<G: Grammar> PrattParser<G> {
    /// An expression never ends before it starts, and one that has a value
    /// has taken at least one token.
    pub proof fn lemma_expression_forward(
        &self,
        stream: Stream,
        bindings: Map<String, G::Value>,
        index: nat,
        min: nat,
    )
        ensures
            self.expression(stream, bindings, index, min).end >= index,
            self.expression(stream, bindings, index, min).result is Ok ==> advanced(
                stream,
                index,
                self.expression(stream, bindings, index, min).end,
            ),
        decreases ahead(stream, index), 0nat, 0nat,
    {
        if index < stream.tokens.len() {
            let token = stream.tokens[index as int];
            match find_rule(self.prefix_table(), token.type_tag, 0) {
                Some(rule) => {
                    let step = self.grammar().prefix_spec(rule, token, bindings);
                    self.lemma_drive_forward(stream, bindings, step, index + 1);
                    let first = self.drive(stream, bindings, step, index + 1);
                    match first.result {
                        Ok(left) => {
                            assert(advanced(stream, index, first.end));
                            self.lemma_climb_forward(stream, bindings, left, first.end, min);
                        },
                        Err(_) => {},
                    }
                },
                None => {},
            }
        }
    }

    /// A rule never ends before the token where it was taken up.
    pub proof fn lemma_drive_forward(
        &self,
        stream: Stream,
        bindings: Map<String, G::Value>,
        step: StepView<Val<G>, Keep<G>>,
        index: nat,
    )
        ensures
            self.drive(stream, bindings, step, index).end >= index,
        decreases ahead(stream, index), 1nat, 2nat,
    {
        self.lemma_drive_on_forward(stream, bindings, step, index, false);
    }

    /// A rule never ends before the token where it was taken up, whether
    /// it has just looked at that token or not.
    pub proof fn lemma_drive_on_forward(
        &self,
        stream: Stream,
        bindings: Map<String, G::Value>,
        step: StepView<Val<G>, Keep<G>>,
        index: nat,
        looked: bool,
    )
        ensures
            self.drive_on(stream, bindings, step, index, looked).end >= index,
        decreases ahead(stream, index), 1nat, (if looked {
            0nat
        } else {
            1nat
        }),
    {
        match step {
            StepView::Sub(level, kept) => {
                self.lemma_expression_forward(stream, bindings, index, level);
                let sub = self.expression(stream, bindings, index, level);
                match sub.result {
                    Ok(value) => {
                        self.lemma_drive_on_forward(
                            stream,
                            bindings,
                            self.grammar().resume_spec(kept, EventView::Value(value), bindings),
                            sub.end,
                            false,
                        );
                    },
                    Err(_) => {},
                }
            },
            StepView::Take(kept) => {
                if index < stream.tokens.len() {
                    self.lemma_drive_on_forward(
                        stream,
                        bindings,
                        self.grammar().resume_spec(
                            kept,
                            EventView::Token(stream.tokens[index as int]),
                            bindings,
                        ),
                        index + 1,
                        false,
                    );
                }
            },
            StepView::Peek(kept) => {
                if !looked {
                    if index < stream.tokens.len() {
                        self.lemma_drive_on_forward(
                            stream,
                            bindings,
                            self.grammar().resume_spec(
                                kept,
                                EventView::Ahead(Some(stream.tokens[index as int])),
                                bindings,
                            ),
                            index,
                            true,
                        );
                    } else if stream.tail is None {
                        self.lemma_drive_on_forward(
                            stream,
                            bindings,
                            self.grammar().resume_spec(kept, EventView::Ahead(None), bindings),
                            index,
                            true,
                        );
                    }
                }
            },
            _ => {},
        }
    }

    /// Continuing an expression never ends before the token where the
    /// continuation started.
    pub proof fn lemma_climb_forward(
        &self,
        stream: Stream,
        bindings: Map<String, G::Value>,
        left: Val<G>,
        index: nat,
        min: nat,
    )
        ensures
            self.climb(stream, bindings, left, index, min).end >= index,
        decreases ahead(stream, index), 2nat, 0nat,
    {
        if index < stream.tokens.len() {
            let token = stream.tokens[index as int];
            match level_of(self.levels(), token.type_tag, 0) {
                Some(level) => if level > min {
                    match find_rule(self.infix_table(), token.type_tag, 0) {
                        Some(rule) => {
                            let step = self.grammar().infix_spec(rule, left, token, bindings);
                            self.lemma_drive_forward(stream, bindings, step, index + 1);
                            let next = self.drive(stream, bindings, step, index + 1);
                            match next.result {
                                Ok(value) => {
                                    assert(advanced(stream, index, next.end));
                                    self.lemma_climb_forward(stream, bindings, value, next.end, min);
                                },
                                Err(_) => {},
                            }
                        },
                        None => {},
                    }
                },
                None => {},
            }
        }
    }

    /// A token without a prefix rule, met where an expression starts, ends
    /// the parse with a syntax error that names it.
    pub proof fn law_token_without_prefix_rule(
        &self,
        stream: Stream,
        bindings: Map<String, G::Value>,
        index: nat,
        min: nat,
    )
        requires
            index < stream.tokens.len(),
            find_rule(self.prefix_table(), stream.tokens[index as int].type_tag, 0) is None,
        ensures
            self.expression(stream, bindings, index, min).result == Err::<Val<G>, Failure>(
                Failure::Syntax(no_prefix_rule(stream.tokens[index as int].type_tag)),
            ),
    {
    }

    /// Two parses by one parser of one input, with the same bindings and
    /// the same precedence, end alike: with equal values or equal failures.
    pub proof fn law_parse_deterministic(
        &self,
        input: Seq<char>,
        bindings: Map<String, G::Value>,
        min: nat,
        first: Result<G::Value, Error>,
        second: Result<G::Value, Error>,
    )
        requires
            matches_result(first, self.parse_spec(input, bindings, min)),
            matches_result(second, self.parse_spec(input, bindings, min)),
        ensures
            match (first, second) {
                (Ok(a), Ok(b)) => a@ == b@,
                (Err(a), Err(b)) => a@ == b@,
                _ => false,
            },
    {
    }

    /// Precedence is respected. An expression read with the threshold
    /// `low` begins as the one read with a higher threshold `high` does:
    /// what binds tighter than `high` is taken first and makes one operand,
    /// and only then does the reading go on over what binds tighter than
    /// `low`.
    pub proof fn law_climb_by_precedence(
        &self,
        stream: Stream,
        bindings: Map<String, G::Value>,
        left: Val<G>,
        index: nat,
        low: nat,
        high: nat,
    )
        requires
            low <= high,
        ensures
            self.climb(stream, bindings, left, index, low) == ({
                let tight = self.climb(stream, bindings, left, index, high);
                match tight.result {
                    Ok(operand) => self.climb(stream, bindings, operand, tight.end, low),
                    Err(_) => tight,
                }
            }),
        decreases ahead(stream, index),
    {
        if index < stream.tokens.len() {
            let token = stream.tokens[index as int];
            match level_of(self.levels(), token.type_tag, 0) {
                Some(level) => if level > high {
                    match find_rule(self.infix_table(), token.type_tag, 0) {
                        Some(rule) => {
                            let step = self.grammar().infix_spec(rule, left, token, bindings);
                            self.lemma_drive_forward(stream, bindings, step, index + 1);
                            let next = self.drive(stream, bindings, step, index + 1);
                            match next.result {
                                Ok(value) => {
                                    assert(advanced(stream, index, next.end));
                                    self.law_climb_by_precedence(
                                        stream,
                                        bindings,
                                        value,
                                        next.end,
                                        low,
                                        high,
                                    );
                                },
                                Err(_) => {},
                            }
                        },
                        None => {},
                    }
                },
                None => {},
            }
        }
    }

    /// Precedence is respected, for a whole expression: read with the
    /// threshold `low`, it is the expression read with a higher threshold
    /// `high`, continued over what binds tighter than `low`.
    pub proof fn law_expression_by_precedence(
        &self,
        stream: Stream,
        bindings: Map<String, G::Value>,
        index: nat,
        low: nat,
        high: nat,
    )
        requires
            low <= high,
        ensures
            self.expression(stream, bindings, index, low) == ({
                let tight = self.expression(stream, bindings, index, high);
                match tight.result {
                    Ok(operand) => self.climb(stream, bindings, operand, tight.end, low),
                    Err(_) => tight,
                }
            }),
    {
        if index < stream.tokens.len() {
            let token = stream.tokens[index as int];
            match find_rule(self.prefix_table(), token.type_tag, 0) {
                Some(rule) => {
                    let step = self.grammar().prefix_spec(rule, token, bindings);
                    self.lemma_drive_forward(stream, bindings, step, index + 1);
                    let first = self.drive(stream, bindings, step, index + 1);
                    match first.result {
                        Ok(left) => {
                            assert(advanced(stream, index, first.end));
                            self.law_climb_by_precedence(
                                stream,
                                bindings,
                                left,
                                first.end,
                                low,
                                high,
                            );
                        },
                        Err(_) => {},
                    }
                },
                None => {},
            }
        }
    }
}

} // verus!
