//! Cutting an input into typed tokens.
//!
//! A lexicon lists the kinds of token in the order in which they are tried,
//! and a pattern for the text between tokens. A tokenizer is a cursor over
//! one input that hands the tokens out one by one; a token stream holds all
//! of them at once. Positions count characters from the start of the input.

use vstd::prelude::*;
use crate::errors::{Error, Failure};
use crate::matcher::{match_at_start, prefix_match};
use crate::text::{after, decimal_string, decimal_text, starts_with};

verus! {

/// One token: its kind, the text it was cut from, and where that text starts.
#[derive(Debug, PartialEq, Eq)]
pub struct Token {
    pub type_tag: String,
    pub value: String,
    pub position: usize,
}

/// A [`Token`] over sequences of characters.
pub struct TokenView {
    pub type_tag: Seq<char>,
    pub value: Seq<char>,
    pub position: nat,
}

impl View for Token {
    type V = TokenView;

    open spec fn view(&self) -> TokenView {
        TokenView { type_tag: self.type_tag@, value: self.value@, position: self.position as nat }
    }
}

impl Token {
    /// The same token once more.
    pub fn copy(&self) -> (token: Token)
        ensures
            token@ == self@,
    {
        Token {
            type_tag: self.type_tag.clone(),
            value: self.value.clone(),
            position: self.position,
        }
    }
}

/// A kind of token. With a pattern, the token is whatever text the pattern
/// matches; without one, the token is the kind's own name, letter for letter.
#[derive(Debug, PartialEq, Eq)]
pub struct TokenKind {
    pub name: String,
    pub pattern: Option<String>,
}

/// A [`TokenKind`] over sequences of characters.
pub struct KindView {
    pub name: Seq<char>,
    pub pattern: Option<Seq<char>>,
}

impl View for TokenKind {
    type V = KindView;

    open spec fn view(&self) -> KindView {
        KindView {
            name: self.name@,
            pattern: match self.pattern {
                Some(p) => Some(p@),
                None => None,
            },
        }
    }
}

/// What a tokenizer looks for: the text to ignore between tokens, and the
/// kinds of token, most specific first.
#[derive(Debug, PartialEq, Eq)]
pub struct Lexicon {
    pub skip: String,
    pub kinds: Vec<TokenKind>,
}

/// A [`Lexicon`] over sequences of characters.
pub struct LexiconView {
    pub skip: Seq<char>,
    pub kinds: Seq<KindView>,
}

impl View for Lexicon {
    type V = LexiconView;

    open spec fn view(&self) -> LexiconView {
        LexiconView { skip: self.skip@, kinds: self.kinds@.map_values(|k: TokenKind| k@) }
    }
}

/// What stands at the head of the remaining input.
pub enum Lexeme {
    /// Nothing but ignored text is left.
    End,
    /// No token can be cut here.
    Bad(Failure),
    /// A token, and the number of characters up to its end, ignored text
    /// before it included.
    Tok(TokenView, nat),
}

/// The message for input that no kind matches.
pub open spec fn unexpected_input(position: nat, rest: Seq<char>) -> Seq<char> {
    "unexpected input at position "@ + decimal_text(position) + ": "@ + rest
}

/// The message for a kind that matched without taking a character.
pub open spec fn empty_match(kind: Seq<char>, position: nat) -> Seq<char> {
    "token "@ + kind + " matched no text at position "@ + decimal_text(position)
}

/// The number of characters at the head of `rest` that the skip pattern
/// takes, applied again and again until it matches nothing more.
pub open spec fn skipped(skip: Seq<char>, rest: Seq<char>) -> nat
    decreases rest.len(),
{
    match match_at_start(skip, rest) {
        Some(text) => if 0 < text.len() <= rest.len() {
            text.len() + skipped(skip, rest.skip(text.len() as int))
        } else {
            0
        },
        None => 0,
    }
}

/// The text that `kind` takes from the head of `rest`, if it matches there.
pub open spec fn kind_match(kind: KindView, rest: Seq<char>) -> Option<Seq<char>> {
    match kind.pattern {
        Some(pattern) => match_at_start(pattern, rest),
        None => if kind.name.is_prefix_of(rest) {
            Some(kind.name)
        } else {
            None
        },
    }
}

/// The first kind from index `from` on that matches at the head of `rest`,
/// with the text it takes.
pub open spec fn first_match(kinds: Seq<KindView>, rest: Seq<char>, from: nat) -> Option<
    (nat, Seq<char>),
>
    decreases kinds.len() - from,
{
    if from >= kinds.len() {
        None
    } else {
        match kind_match(kinds[from as int], rest) {
            Some(text) => Some((from, text)),
            None => first_match(kinds, rest, from + 1),
        }
    }
}

/// What a kind makes of the text it took: a token, unless it took nothing.
/// The text starts at character `start`, after `gap` ignored characters.
pub open spec fn cut(kind: Seq<char>, text: Seq<char>, start: nat, gap: nat) -> Lexeme {
    if text.len() == 0 {
        Lexeme::Bad(Failure::Syntax(empty_match(kind, start)))
    } else {
        Lexeme::Tok(TokenView { type_tag: kind, value: text, position: start }, gap + text.len())
    }
}

/// What stands at the head of `rest`, which begins at character `position`
/// of the input: ignored text is passed over, then the kinds are tried in
/// order and the first that matches makes the token.
pub open spec fn lexeme(lexicon: LexiconView, rest: Seq<char>, position: nat) -> Lexeme {
    let gap = skipped(lexicon.skip, rest);
    let body = rest.skip(gap as int);
    let start = position + gap;
    if body.len() == 0 {
        Lexeme::End
    } else {
        match first_match(lexicon.kinds, body, 0) {
            None => Lexeme::Bad(Failure::Syntax(unexpected_input(start, body))),
            Some((index, text)) => cut(lexicon.kinds[index as int].name, text, start, gap),
        }
    }
}

/// Ignored text never reaches past the end of the input.
pub proof fn lemma_skipped_bound(skip: Seq<char>, rest: Seq<char>)
    ensures
        skipped(skip, rest) <= rest.len(),
    decreases rest.len(),
{
    match match_at_start(skip, rest) {
        Some(text) => {
            if 0 < text.len() <= rest.len() {
                lemma_skipped_bound(skip, rest.skip(text.len() as int));
            }
        },
        None => {},
    }
}

/// A match found from index `from` on belongs to a kind of the lexicon and
/// is a prefix of the text it was found in.
pub proof fn lemma_first_match(kinds: Seq<KindView>, rest: Seq<char>, from: nat)
    ensures
        first_match(kinds, rest, from) matches Some((index, text)) ==> from <= index < kinds.len()
            && text.is_prefix_of(rest) && kind_match(kinds[index as int], rest) == Some(text),
    decreases kinds.len() - from,
{
    if from < kinds.len() {
        if kind_match(kinds[from as int], rest) is None {
            lemma_first_match(kinds, rest, from + 1);
        }
    }
}

/// Every token takes at least one character, lies inside the input, and
/// holds the very text of the input at its position.
pub proof fn lemma_lexeme_token(lexicon: LexiconView, rest: Seq<char>, position: nat)
    ensures
        lexeme(lexicon, rest, position) matches Lexeme::Tok(token, taken) ==> {
            &&& 0 < token.value.len() <= taken <= rest.len()
            &&& token.position == position + taken - token.value.len()
            &&& token.value == rest.subrange(taken - token.value.len(), taken as int)
            &&& exists|index: int|
                0 <= index < lexicon.kinds.len() && #[trigger] lexicon.kinds[index].name
                    == token.type_tag
        },
{
    lemma_skipped_bound(lexicon.skip, rest);
    let gap = skipped(lexicon.skip, rest);
    let body = rest.skip(gap as int);
    lemma_first_match(lexicon.kinds, body, 0);
    if let Lexeme::Tok(token, taken) = lexeme(lexicon, rest, position) {
        let text = token.value;
        assert(text =~= rest.subrange(taken - text.len(), taken as int));
    }
}

/// A [`Lexeme`] as the tokenizer hands it out.
#[derive(Debug, PartialEq, Eq)]
pub enum Scanned {
    End,
    Bad(Error),
    Tok(Token, usize),
}

impl View for Scanned {
    type V = Lexeme;

    open spec fn view(&self) -> Lexeme {
        match self {
            Scanned::End => Lexeme::End,
            Scanned::Bad(e) => Lexeme::Bad(e@),
            Scanned::Tok(token, taken) => Lexeme::Tok(token@, *taken as nat),
        }
    }
}

fn unexpected_input_error(position: usize, rest: &str) -> (e: Error)
    ensures
        e@ == Failure::Syntax(unexpected_input(position as nat, rest@)),
{
    let number = decimal_string(position);
    let message = String::from_str("unexpected input at position ").concat(
        number.as_str(),
    ).concat(": ").concat(rest);
    Error::SyntaxError(message)
}

fn empty_match_error(kind: &str, position: usize) -> (e: Error)
    ensures
        e@ == Failure::Syntax(empty_match(kind@, position as nat)),
{
    let number = decimal_string(position);
    let message = String::from_str("token ").concat(kind).concat(
        " matched no text at position ",
    ).concat(number.as_str());
    Error::SyntaxError(message)
}

impl TokenKind {
    /// Tries this kind at the head of `rest`.
    pub fn try_match(&self, rest: &str) -> (matched: Option<String>)
        ensures
            matched is Some <==> kind_match(self@, rest@) is Some,
            matched matches Some(text) ==> kind_match(self@, rest@) == Some(text@),
    {
        match &self.pattern {
            Some(pattern) => prefix_match(pattern.as_str(), rest),
            None => if starts_with(rest, self.name.as_str()) {
                Some(self.name.clone())
            } else {
                None
            },
        }
    }

    /// Makes the token of this kind out of the text it took, which starts
    /// at character `start`. Text without a character makes no token but a
    /// failure.
    pub fn make_token(&self, text: String, start: usize) -> (made: Result<Token, Error>)
        ensures
            match made {
                Ok(token) => text@.len() > 0 && token@ == (TokenView {
                    type_tag: self@.name,
                    value: text@,
                    position: start as nat,
                }),
                Err(e) => text@.len() == 0 && e@ == Failure::Syntax(
                    empty_match(self@.name, start as nat),
                ),
            },
    {
        if text.as_str().unicode_len() == 0 {
            Err(empty_match_error(self.name.as_str(), start))
        } else {
            Ok(Token { type_tag: self.name.clone(), value: text, position: start })
        }
    }
}

impl Lexicon {
    /// Passes over the ignored text at the head of `rest` and says how many
    /// characters it took.
    pub fn skip_ignored(&self, rest: &str) -> (gap: usize)
        ensures
            gap == skipped(self.skip@, rest@),
            gap <= rest@.len(),
    {
        let total: usize = rest.unicode_len();
        let mut gap: usize = 0;
        let mut done = false;
        proof {
            assert(rest@.skip(0) =~= rest@);
        }
        while !done
            invariant
                total == rest@.len(),
                gap <= total,
                skipped(self.skip@, rest@) == gap + skipped(self.skip@, rest@.skip(gap as int)),
                done ==> skipped(self.skip@, rest@.skip(gap as int)) == 0,
            decreases total - gap, (if done { 0int } else { 1int }),
        {
            let here = after(rest, gap);
            match prefix_match(self.skip.as_str(), here) {
                Some(text) => {
                    let n: usize = text.as_str().unicode_len();
                    if n == 0 {
                        done = true;
                    } else {
                        proof {
                            assert(here@.skip(n as int) =~= rest@.skip(gap + n));
                        }
                        gap = gap + n;
                    }
                },
                None => {
                    done = true;
                },
            }
        }
        gap
    }

    /// Cuts the token at the head of `rest`, which begins at character
    /// `position` of the input.
    pub fn scan(&self, rest: &str, position: usize) -> (scanned: Scanned)
        requires
            position + rest@.len() <= usize::MAX,
        ensures
            scanned@ == lexeme(self@, rest@, position as nat),
    {
        let gap: usize = self.skip_ignored(rest);
        let body = after(rest, gap);
        let start: usize = position + gap;
        if body.unicode_len() == 0 {
            return Scanned::End;
        }
        let ghost kinds = self@.kinds;
        let mut i: usize = 0;
        while i < self.kinds.len()
            invariant
                i <= self.kinds.len(),
                kinds == self@.kinds,
                kinds.len() == self.kinds.len(),
                body@ == rest@.skip(gap as int),
                gap == skipped(self.skip@, rest@),
                gap <= rest@.len(),
                start == position + gap,
                position + rest@.len() <= usize::MAX,
                body@.len() > 0,
                first_match(kinds, body@, 0) == first_match(kinds, body@, i as nat),
            decreases self.kinds.len() - i,
        {
            let kind = &self.kinds[i];
            assert(kinds[i as int] == kind@);
            match kind.try_match(body) {
                Some(text) => {
                    let n: usize = text.as_str().unicode_len();
                    proof {
                        lemma_first_match(kinds, body@, i as nat);
                    }
                    return match kind.make_token(text, start) {
                        Ok(token) => Scanned::Tok(token, gap + n),
                        Err(e) => Scanned::Bad(e),
                    };
                },
                None => {},
            }
            i += 1;
        }
        Scanned::Bad(unexpected_input_error(start, body))
    }
}

/// A cursor over one input: it hands out the tokens one by one, and looks at
/// the next one without taking it. To read the input again, make a new one.
pub struct Tokenizer<'a> {
    lexicon: &'a Lexicon,
    input: &'a str,
    rest: &'a str,
    position: usize,
}

impl<'a> Tokenizer<'a> {
    /// The lexicon in use.
    pub closed spec fn lexicon(&self) -> LexiconView {
        self.lexicon@
    }

    /// The whole input.
    pub closed spec fn input(&self) -> Seq<char> {
        self.input@
    }

    /// The number of characters already passed.
    pub closed spec fn position(&self) -> nat {
        self.position as nat
    }

    /// The cursor lies inside the input.
    pub closed spec fn wf(&self) -> bool {
        &&& self.position <= self.input@.len() <= usize::MAX
        &&& self.rest@ == self.input@.skip(self.position as int)
    }

    /// A cursor in good order lies inside an input of a length that fits.
    pub proof fn lemma_within(&self)
        requires
            self.wf(),
        ensures
            self.position() <= self.input().len() <= usize::MAX,
    {
    }

    /// What stands at the cursor.
    pub open spec fn head(&self) -> Lexeme {
        lexeme_at(self.lexicon(), self.input(), self.position())
    }

    /// A cursor at the start of `input`.
    pub fn new(lexicon: &'a Lexicon, input: &'a str) -> (tokenizer: Self)
        ensures
            tokenizer.wf(),
            tokenizer.lexicon() == lexicon@,
            tokenizer.input() == input@,
            tokenizer.position() == 0,
    {
        let total: usize = input.unicode_len();
        proof {
            assert(input@.skip(0) =~= input@);
        }
        Tokenizer { lexicon, input, rest: input, position: 0 }
    }

    /// The number of characters already passed.
    pub fn offset(&self) -> (n: usize)
        ensures
            n == self.position(),
    {
        self.position
    }

    /// Looks at the next token and leaves the cursor where it is.
    pub fn peek(&self) -> (scanned: Scanned)
        requires
            self.wf(),
        ensures
            scanned@ == self.head(),
    {
        self.lexicon.scan(self.rest, self.position)
    }

    /// Moves the cursor past a token that `peek` has shown.
    fn advance(&mut self, taken: usize)
        requires
            old(self).wf(),
            old(self).head() matches Lexeme::Tok(_, n) && n == taken,
        ensures
            final(self).wf(),
            final(self).lexicon() == old(self).lexicon(),
            final(self).input() == old(self).input(),
            final(self).position() == old(self).position() + taken,
    {
        proof {
            lemma_lexeme_token(self.lexicon@, self.rest@, self.position as nat);
            assert(self.rest@.skip(taken as int) =~= self.input@.skip(self.position + taken));
        }
        self.rest = after(self.rest, taken);
        self.position = self.position + taken;
    }

    /// Takes the next token: `None` at the end of the input, the failure
    /// where no token can be cut, and else the token, with the cursor moved
    /// past it. After a failure the cursor stays, so the failure comes again.
    pub fn next_token(&mut self) -> (next: Option<Result<Token, Error>>)
        requires
            old(self).wf(),
        ensures
            final(self).wf(),
            final(self).lexicon() == old(self).lexicon(),
            final(self).input() == old(self).input(),
            old(self).head() is End ==> next is None,
            old(self).head() matches Lexeme::Bad(failure) ==> next matches Some(Err(e)) && e@
                == failure,
            old(self).head() matches Lexeme::Tok(token, taken) ==> next matches Some(Ok(t)) && t@
                == token && final(self).position() == old(self).position() + taken,
            !(old(self).head() is Tok) ==> final(self).position() == old(self).position(),
    {
        match self.peek() {
            Scanned::End => None,
            Scanned::Bad(e) => Some(Err(e)),
            Scanned::Tok(token, taken) => {
                self.advance(taken);
                Some(Ok(token))
            },
        }
    }
}

/// The input from character `position` on; nothing beyond its end.
pub open spec fn remaining(input: Seq<char>, position: nat) -> Seq<char> {
    if position <= input.len() {
        input.skip(position as int)
    } else {
        Seq::empty()
    }
}

/// What stands at character `position` of `input`.
pub open spec fn lexeme_at(lexicon: LexiconView, input: Seq<char>, position: nat) -> Lexeme {
    lexeme(lexicon, remaining(input, position), position)
}

/// A token at `position` ends inside the input, after `position`.
pub proof fn lemma_lexeme_at(lexicon: LexiconView, input: Seq<char>, position: nat)
    ensures
        lexeme_at(lexicon, input, position) matches Lexeme::Tok(token, taken) ==> {
            &&& 0 < taken
            &&& position + taken <= input.len()
            &&& position <= token.position
            &&& token.position + token.value.len() == position + taken
            &&& token.value == input.subrange(
                token.position as int,
                (position + taken) as int,
            )
        },
{
    let rest = remaining(input, position);
    lemma_lexeme_token(lexicon, rest, position);
    if let Lexeme::Tok(token, taken) = lexeme_at(lexicon, input, position) {
        assert(rest.subrange(taken - token.value.len(), taken as int) =~= input.subrange(
            token.position as int,
            (position + taken) as int,
        ));
    }
}

/// The tokens of an input, all of them as far as they can be cut, and the
/// failure that stopped the cutting, if one did.
#[derive(Debug, PartialEq, Eq)]
pub struct TokenStream {
    pub tokens: Vec<Token>,
    pub tail: Option<Error>,
}

/// A [`TokenStream`] over sequences of characters.
pub struct Stream {
    pub tokens: Seq<TokenView>,
    pub tail: Option<Failure>,
}

impl View for TokenStream {
    type V = Stream;

    open spec fn view(&self) -> Stream {
        Stream {
            tokens: self.tokens@.map_values(|t: Token| t@),
            tail: match self.tail {
                Some(e) => Some(e@),
                None => None,
            },
        }
    }
}

impl Stream {
    /// This stream after the token `first`.
    pub open spec fn after(self, first: TokenView) -> Stream {
        Stream { tokens: seq![first] + self.tokens, tail: self.tail }
    }
}

/// The tokens of `input` from character `position` on.
pub open spec fn stream_from(lexicon: LexiconView, input: Seq<char>, position: nat) -> Stream
    decreases remaining(input, position).len(),
{
    match lexeme_at(lexicon, input, position) {
        Lexeme::End => Stream { tokens: Seq::empty(), tail: None },
        Lexeme::Bad(failure) => Stream { tokens: Seq::empty(), tail: Some(failure) },
        Lexeme::Tok(token, taken) => {
            proof {
                lemma_lexeme_at(lexicon, input, position);
            }
            stream_from(lexicon, input, position + taken).after(token)
        },
    }
}

/// The tokens of `input`.
pub open spec fn tokens_of(lexicon: LexiconView, input: Seq<char>) -> Stream {
    stream_from(lexicon, input, 0)
}

impl Lexicon {
    /// Cuts the whole of `input` into tokens, up to its end or to the
    /// first place where no token can be cut.
    pub fn tokenize(&self, input: &str) -> (stream: TokenStream)
        ensures
            stream@ == tokens_of(self@, input@),
    {
        let mut tokenizer = Tokenizer::new(self, input);
        let mut tokens: Vec<Token> = Vec::new();
        let mut tail: Option<Error> = None;
        let mut done = false;
        let ghost whole = tokens_of(self@, input@);
        proof {
            let rest = stream_from(self@, input@, 0);
            assert(tokens@.map_values(|t: Token| t@) + rest.tokens =~= rest.tokens);
        }
        while !done
            invariant
                tokenizer.wf(),
                tokenizer.lexicon() == self@,
                tokenizer.input() == input@,
                whole == tokens_of(self@, input@),
                !done ==> tail is None,
                !done ==> whole.tokens == tokens@.map_values(|t: Token| t@) + stream_from(
                    self@,
                    input@,
                    tokenizer.position(),
                ).tokens,
                !done ==> whole.tail == stream_from(self@, input@, tokenizer.position()).tail,
                done ==> whole == (TokenStream { tokens, tail })@,
            decreases
                    remaining(input@, tokenizer.position()).len(),
                    (if done {
                        0int
                    } else {
                        1int
                    }),
        {
            let ghost position = tokenizer.position();
            let ghost before = tokens@.map_values(|t: Token| t@);
            proof {
                tokenizer.lemma_within();
                lemma_lexeme_at(self@, input@, position);
            }
            match tokenizer.next_token() {
                None => {
                    done = true;
                    proof {
                        assert(before + Seq::<TokenView>::empty() =~= before);
                    }
                },
                Some(Err(e)) => {
                    tail = Some(e);
                    done = true;
                    proof {
                        assert(before + Seq::<TokenView>::empty() =~= before);
                    }
                },
                Some(Ok(token)) => {
                    let ghost view = token@;
                    tokens.push(token);
                    proof {
                        tokenizer.lemma_within();
                        let rest = stream_from(self@, input@, tokenizer.position());
                        assert(tokens@.map_values(|t: Token| t@) =~= before.push(view));
                        assert(before.push(view) + rest.tokens =~= before + (seq![view]
                            + rest.tokens));
                    }
                },
            }
        }
        TokenStream { tokens, tail }
    }
}

/// The tokens of one input, cut as they are asked for, and kept: a stream
/// of which only the front has been made so far.
pub struct TokenBuffer<'a> {
    tokenizer: Option<Tokenizer<'a>>,
    cut: Vec<Token>,
    tail: Option<Error>,
}

impl<'a> TokenBuffer<'a> {
    /// The buffer is in good order.
    pub closed spec fn wf(&self) -> bool {
        match self.tokenizer {
            Some(tokenizer) => tokenizer.wf() && self.tail is None,
            None => true,
        }
    }

    /// All the tokens, those still to be cut included.
    pub closed spec fn stream(&self) -> Stream {
        match self.tokenizer {
            Some(tokenizer) => {
                let rest = stream_from(
                    tokenizer.lexicon(),
                    tokenizer.input(),
                    tokenizer.position(),
                );
                Stream {
                    tokens: self.cut@.map_values(|t: Token| t@) + rest.tokens,
                    tail: rest.tail,
                }
            },
            None => (TokenStream { tokens: self.cut, tail: self.tail })@,
        }
    }

    /// The number of tokens cut so far.
    pub closed spec fn cut(&self) -> nat {
        self.cut@.len()
    }

    /// True when nothing is left to cut.
    pub closed spec fn done(&self) -> bool {
        self.tokenizer is None
    }

    /// A buffer over `input`, with nothing cut yet.
    pub fn new(lexicon: &'a Lexicon, input: &'a str) -> (buffer: Self)
        ensures
            buffer.wf(),
            buffer.stream() == tokens_of(lexicon@, input@),
            buffer.cut() == 0,
    {
        let buffer = TokenBuffer {
            tokenizer: Some(Tokenizer::new(lexicon, input)),
            cut: Vec::new(),
            tail: None,
        };
        proof {
            let rest = stream_from(lexicon@, input@, 0);
            assert(buffer.cut@.map_values(|t: Token| t@) + rest.tokens =~= rest.tokens);
        }
        buffer
    }

    /// A buffer that holds the tokens of `stream`, with nothing left to cut.
    pub fn filled(stream: TokenStream) -> (buffer: Self)
        ensures
            buffer.wf(),
            buffer.stream() == stream@,
            buffer.done(),
    {
        TokenBuffer { tokenizer: None, cut: stream.tokens, tail: stream.tail }
    }

    /// Cuts one more token, or finds that there is none.
    fn cut_one(&mut self)
        requires
            old(self).wf(),
            !old(self).done(),
        ensures
            final(self).wf(),
            final(self).stream() == old(self).stream(),
            final(self).done() || final(self).cut() == old(self).cut() + 1,
            final(self).done() ==> final(self).cut() == old(self).cut(),
    {
        let ghost before = self.cut@.map_values(|t: Token| t@);
        let mut tokenizer = match self.tokenizer.take() {
            Some(tokenizer) => tokenizer,
            None => {
                return ;
            },
        };
        proof {
            tokenizer.lemma_within();
            lemma_lexeme_at(tokenizer.lexicon(), tokenizer.input(), tokenizer.position());
        }
        match tokenizer.next_token() {
            None => {
                proof {
                    assert(before + Seq::<TokenView>::empty() =~= before);
                }
            },
            Some(Err(e)) => {
                self.tail = Some(e);
                proof {
                    assert(before + Seq::<TokenView>::empty() =~= before);
                }
            },
            Some(Ok(token)) => {
                let ghost view = token@;
                self.cut.push(token);
                proof {
                    let rest = stream_from(
                        tokenizer.lexicon(),
                        tokenizer.input(),
                        tokenizer.position(),
                    );
                    assert(self.cut@.map_values(|t: Token| t@) =~= before.push(view));
                    assert(before.push(view) + rest.tokens =~= before + (seq![view] + rest.tokens));
                }
                self.tokenizer = Some(tokenizer);
            },
        }
    }

    /// Cuts as far as the token at `index`, if the input has that many, and
    /// tells whether it has.
    pub fn reach(&mut self, index: usize) -> (there: bool)
        requires
            old(self).wf(),
        ensures
            final(self).wf(),
            final(self).stream() == old(self).stream(),
            there == (index < final(self).stream().tokens.len()),
            there ==> index < final(self).cut() <= usize::MAX,
            !there ==> final(self).done(),
    {
        while self.tokenizer.is_some() && self.cut.len() <= index
            invariant
                self.wf(),
                self.stream() == old(self).stream(),
            decreases
                    (if self.cut() <= index {
                        index + 1 - self.cut()
                    } else {
                        0
                    }),
                    (if self.done() {
                        0int
                    } else {
                        1int
                    }),
        {
            self.cut_one();
        }
        index < self.cut.len()
    }

    /// The token at `index`, which has been cut.
    pub fn token(&self, index: usize) -> (token: &Token)
        requires
            self.wf(),
            index < self.cut(),
        ensures
            token@ == self.stream().tokens[index as int],
    {
        &self.cut[index]
    }

    /// The failure that ended the cutting, if one did and nothing is left
    /// to cut.
    pub fn failure(&self) -> (tail: &Option<Error>)
        requires
            self.wf(),
            self.done(),
        ensures
            match tail {
                Some(e) => self.stream().tail == Some(e@),
                None => self.stream().tail is None,
            },
    {
        &self.tail
    }
}

} // verus!
