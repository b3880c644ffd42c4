use pratt_expr::errors::Error;
use pratt_expr::interpreter::create_interpreter;
use pratt_expr::matcher::{is_accepted, leading_text, pattern_compiles, prefix_match, Found};
use pratt_expr::text::{after, decimal_string, starts_with};
use pratt_expr::tokenizer::{
    Lexicon, Scanned, Token, TokenBuffer, TokenKind, TokenStream, Tokenizer,
};

fn kind(name: &str, pattern: Option<&str>) -> TokenKind {
    TokenKind { name: name.to_string(), pattern: pattern.map(|p| p.to_string()) }
}

fn token(type_tag: &str, value: &str, position: usize) -> Token {
    Token { type_tag: type_tag.to_string(), value: value.to_string(), position }
}

fn all_tokens(tokenizer: &mut Tokenizer) -> Vec<Result<Token, Error>> {
    let mut out = Vec::new();
    while let Some(next) = tokenizer.next_token() {
        let failed = next.is_err();
        out.push(next);
        if failed {
            break;
        }
    }
    out
}

#[test]
fn tokens_carry_type_text_and_position() {
    let lexicon = Lexicon {
        skip: "\\s+".to_string(),
        kinds: vec![kind("number", Some("[0-9]+")), kind("+", None)],
    };
    let mut tokenizer = Tokenizer::new(&lexicon, "  12 +\t7 ");
    assert_eq!(
        all_tokens(&mut tokenizer),
        vec![Ok(token("number", "12", 2)), Ok(token("+", "+", 5)), Ok(token("number", "7", 7))]
    );
    assert_eq!(tokenizer.next_token(), None);
    assert_eq!(tokenizer.offset(), 8);
}

#[test]
fn positions_count_characters() {
    let lexicon = Lexicon {
        skip: " +".to_string(),
        kinds: vec![kind("word", Some("[a-zé]+")), kind("!", None)],
    };
    let mut tokenizer = Tokenizer::new(&lexicon, "été !");
    assert_eq!(
        all_tokens(&mut tokenizer),
        vec![Ok(token("word", "été", 0)), Ok(token("!", "!", 4))]
    );
}

#[test]
fn kinds_are_tried_in_order() {
    let stars = Lexicon { skip: String::new(), kinds: vec![kind("**", None), kind("*", None)] };
    let mut tokenizer = Tokenizer::new(&stars, "***");
    assert_eq!(
        all_tokens(&mut tokenizer),
        vec![Ok(token("**", "**", 0)), Ok(token("*", "*", 2))]
    );
    let single = Lexicon { skip: String::new(), kinds: vec![kind("*", None), kind("**", None)] };
    let mut tokenizer = Tokenizer::new(&single, "**");
    assert_eq!(
        all_tokens(&mut tokenizer),
        vec![Ok(token("*", "*", 0)), Ok(token("*", "*", 1))]
    );
}

#[test]
fn a_pattern_must_match_at_the_cursor() {
    let lexicon = Lexicon { skip: String::new(), kinds: vec![kind("b", Some("b"))] };
    let mut tokenizer = Tokenizer::new(&lexicon, "ab");
    assert_eq!(
        tokenizer.next_token(),
        Some(Err(Error::SyntaxError("unexpected input at position 0: ab".to_string())))
    );
    // The cursor stays: the failure comes again.
    assert_eq!(
        tokenizer.next_token(),
        Some(Err(Error::SyntaxError("unexpected input at position 0: ab".to_string())))
    );
    assert_eq!(tokenizer.offset(), 0);
}

#[test]
fn a_match_without_text_is_rejected() {
    let lexicon = Lexicon { skip: String::new(), kinds: vec![kind("maybe", Some("a*"))] };
    let mut tokenizer = Tokenizer::new(&lexicon, "aab");
    assert_eq!(tokenizer.next_token(), Some(Ok(token("maybe", "aa", 0))));
    assert_eq!(
        tokenizer.next_token(),
        Some(Err(Error::SyntaxError("token maybe matched no text at position 2".to_string())))
    );
}

#[test]
fn peek_does_not_move() {
    let lexicon = Lexicon { skip: " ".to_string(), kinds: vec![kind("x", None)] };
    let mut tokenizer = Tokenizer::new(&lexicon, " x");
    assert_eq!(tokenizer.peek(), Scanned::Tok(token("x", "x", 1), 2));
    assert_eq!(tokenizer.offset(), 0);
    assert_eq!(tokenizer.next_token(), Some(Ok(token("x", "x", 1))));
    assert_eq!(tokenizer.offset(), 2);
    assert_eq!(tokenizer.peek(), Scanned::End);
}

#[test]
fn empty_input_has_no_tokens() {
    let lexicon = Lexicon { skip: "\\s+".to_string(), kinds: vec![kind("x", None)] };
    assert_eq!(Tokenizer::new(&lexicon, "").next_token(), None);
    assert_eq!(Tokenizer::new(&lexicon, " \n ").next_token(), None);
    assert_eq!(lexicon.skip_ignored(" \n x"), 3);
    assert_eq!(lexicon.scan(" x", 10), Scanned::Tok(token("x", "x", 11), 2));
}

#[test]
fn words_are_not_cut_from_longer_names() {
    let interpreter = create_interpreter().unwrap();
    let mut tokenizer = interpreter.tokens("true truex in inside null1 ** * >= > 1.5 'a b' x.y");
    let tokens: Vec<(String, String)> = all_tokens(&mut tokenizer)
        .into_iter()
        .map(|t| t.unwrap())
        .map(|t| (t.type_tag, t.value))
        .collect();
    let expected: Vec<(String, String)> = [
        ("true", "true"),
        ("identifier", "truex"),
        ("in", "in"),
        ("identifier", "inside"),
        ("identifier", "null1"),
        ("**", "**"),
        ("*", "*"),
        (">=", ">="),
        (">", ">"),
        ("number", "1.5"),
        ("string", "'a b'"),
        ("identifier", "x"),
        (".", "."),
        ("identifier", "y"),
    ]
    .iter()
    .map(|(a, b)| (a.to_string(), b.to_string()))
    .collect();
    assert_eq!(tokens, expected);
}

#[test]
fn try_match_takes_the_name_or_the_pattern() {
    assert_eq!(kind("==", None).try_match("== 1"), Some("==".to_string()));
    assert_eq!(kind("==", None).try_match("= = 1"), None);
    assert_eq!(kind("n", Some("[0-9]+")).try_match("42x"), Some("42".to_string()));
    assert_eq!(kind("n", Some("[0-9]+")).try_match("x42"), None);
    assert_eq!(kind("n", Some("[0-9")).try_match("42"), None);
}

#[test]
fn prefix_match_is_anchored() {
    assert_eq!(prefix_match("[a-c]+", "abcd"), Some("abc".to_string()));
    assert_eq!(prefix_match("b", "ab"), None);
    assert_eq!(prefix_match("x?", "ab"), Some(String::new()));
    assert_eq!(prefix_match("(", "("), None);
    assert_eq!(prefix_match("a(?!b)", "ab"), None);
    assert_eq!(prefix_match("a(?!b)", "ac"), Some("a".to_string()));
}

#[test]
fn pattern_compiles_tells_regular_expressions() {
    assert!(pattern_compiles("true(?![a-zA-Z_0-9])"));
    assert!(pattern_compiles(""));
    assert!(!pattern_compiles("[0-9"));
    assert!(!pattern_compiles("(a"));
}

#[test]
fn text_helpers() {
    assert_eq!(decimal_string(0), "0");
    assert_eq!(decimal_string(7), "7");
    assert_eq!(decimal_string(10), "10");
    assert_eq!(decimal_string(9876543210), "9876543210");
    assert!(starts_with("abc", "ab"));
    assert!(starts_with("abc", ""));
    assert!(starts_with("abc", "abc"));
    assert!(!starts_with("abc", "abcd"));
    assert!(!starts_with("abc", "b"));
    assert_eq!(after("héllo", 2), "llo");
    assert_eq!(after("abc", 3), "");
}

#[test]
fn tokenize_cuts_the_whole_input() {
    let lexicon = Lexicon {
        skip: "\\s+".to_string(),
        kinds: vec![kind("number", Some("[0-9]+")), kind("+", None)],
    };
    assert_eq!(
        lexicon.tokenize(" 1 + 22"),
        TokenStream {
            tokens: vec![token("number", "1", 1), token("+", "+", 3), token("number", "22", 5)],
            tail: None,
        }
    );
    assert_eq!(lexicon.tokenize("  "), TokenStream { tokens: vec![], tail: None });
    assert_eq!(
        lexicon.tokenize("1 x 2"),
        TokenStream {
            tokens: vec![token("number", "1", 0)],
            tail: Some(Error::SyntaxError("unexpected input at position 2: x 2".to_string())),
        }
    );
}

#[test]
fn make_token_rejects_empty_text() {
    let plus = kind("+", None);
    assert_eq!(plus.make_token("+".to_string(), 4), Ok(token("+", "+", 4)));
    assert_eq!(
        plus.make_token(String::new(), 4),
        Err(Error::SyntaxError("token + matched no text at position 4".to_string()))
    );
    assert_eq!(token("a", "b", 1).copy(), token("a", "b", 1));
    assert_eq!(Error::syntax("x").copy(), Error::syntax("x"));
}

#[test]
fn answers_of_the_engine_are_sorted_out() {
    assert_eq!(
        leading_text(Found::Match { start: 0, text: "ab".to_string() }),
        Some("ab".to_string())
    );
    assert_eq!(leading_text(Found::Match { start: 1, text: "ab".to_string() }), None);
    assert_eq!(leading_text(Found::Nothing), None);
    assert_eq!(leading_text(Found::Invalid), None);
    assert_eq!(leading_text(Found::Aborted), None);
    assert!(is_accepted(&Found::Nothing));
    assert!(is_accepted(&Found::Aborted));
    assert!(is_accepted(&Found::Match { start: 3, text: String::new() }));
    assert!(!is_accepted(&Found::Invalid));
}

#[test]
fn buffer_cuts_as_far_as_asked() {
    let lexicon = Lexicon {
        skip: " ".to_string(),
        kinds: vec![kind("number", Some("[0-9]+")), kind("+", None)],
    };
    let mut buffer = TokenBuffer::new(&lexicon, "1 + 2 ? 3");
    assert!(buffer.reach(0));
    assert_eq!(buffer.token(0), &token("number", "1", 0));
    assert!(buffer.reach(2));
    assert_eq!(buffer.token(1), &token("+", "+", 2));
    assert_eq!(buffer.token(2), &token("number", "2", 4));
    assert!(buffer.reach(1));
    assert!(!buffer.reach(3));
    assert_eq!(
        buffer.failure(),
        &Some(Error::SyntaxError("unexpected input at position 6: ? 3".to_string()))
    );
    assert!(!buffer.reach(7));
    let mut short = TokenBuffer::new(&lexicon, "1 ");
    assert!(!short.reach(1));
    assert_eq!(short.failure(), &None);
    assert_eq!(short.token(0), &token("number", "1", 0));
    let stream = TokenStream { tokens: vec![token("+", "+", 0)], tail: None };
    let mut filled = TokenBuffer::filled(stream);
    assert!(filled.reach(0));
    assert!(!filled.reach(1));
    assert_eq!(filled.token(0), &token("+", "+", 0));
    assert_eq!(filled.failure(), &None);
}
