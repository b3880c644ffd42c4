//! The one place where a regular expression is run.

use vstd::prelude::*;

verus! {

/// What searching a text for a pattern gave.
#[derive(Debug, PartialEq, Eq)]
pub enum Found {
    /// The leftmost match: the byte offset where it starts, and its text.
    Match { start: usize, text: String },
    /// The pattern occurs nowhere in the text.
    Nothing,
    /// The pattern is not a regular expression.
    Invalid,
    /// The search gave up before it reached an answer.
    Aborted,
}

/// A [`Found`] over sequences of characters.
pub enum Hit {
    Match { start: nat, text: Seq<char> },
    Nothing,
    Invalid,
    Aborted,
}

impl View for Found {
    type V = Hit;

    open spec fn view(&self) -> Hit {
        match self {
            Found::Match { start, text } => Hit::Match { start: *start as nat, text: text@ },
            Found::Nothing => Hit::Nothing,
            Found::Invalid => Hit::Invalid,
            Found::Aborted => Hit::Aborted,
        }
    }
}

/// The answer of the regular expression engine for `pattern` on `text`.
pub uninterp spec fn regex_find(pattern: Seq<char>, text: Seq<char>) -> Hit;

/// Compiles `pattern` with `fancy_regex::Regex::new` and searches `text`
/// with `Regex::find`; of a match it keeps what `Match::start` and
/// `Match::as_str` give. The pattern is compiled anew at every call.
///
/// Nothing is proved of this function. Two things are taken on trust: that
/// the answer depends on the two texts alone, and that a match which starts
/// at offset zero is a prefix of `text`, as `Match::as_str` is the slice of
/// the searched text between the two offsets of the match.
#[verifier::external_body]
pub(crate) fn find_first(pattern: &str, text: &str) -> (found: Found)
    ensures
        found@ == regex_find(pattern@, text@),
        found matches Found::Match { start, text: matched } ==> (start == 0
            ==> matched@.is_prefix_of(text@)),
{
    match fancy_regex::Regex::new(pattern) {
        Err(_) => Found::Invalid,
        Ok(regex) => match regex.find(text) {
            Err(_) => Found::Aborted,
            Ok(None) => Found::Nothing,
            Ok(Some(m)) => Found::Match { start: m.start(), text: m.as_str().to_string() },
        },
    }
}

/// The text of a match that starts at offset zero, if `hit` is one.
pub open spec fn leading(hit: Hit) -> Option<Seq<char>> {
    match hit {
        Hit::Match { start, text } => if start == 0 {
            Some(text)
        } else {
            None
        },
        _ => None,
    }
}

/// The text that `pattern` matches at the very start of `rest`, if it
/// matches there.
pub open spec fn match_at_start(pattern: Seq<char>, rest: Seq<char>) -> Option<Seq<char>> {
    match leading(regex_find(pattern, rest)) {
        Some(text) => if text.is_prefix_of(rest) {
            Some(text)
        } else {
            None
        },
        None => None,
    }
}

/// True when `pattern` is a regular expression the engine accepts.
pub open spec fn compiles(pattern: Seq<char>) -> bool {
    !(regex_find(pattern, Seq::<char>::empty()) is Invalid)
}

/// Keeps of an answer the text of a match that starts at offset zero.
pub fn leading_text(found: Found) -> (matched: Option<String>)
    ensures
        matched is Some <==> leading(found@) is Some,
        matched matches Some(text) ==> leading(found@) == Some(text@),
{
    match found {
        Found::Match { start, text } => if start == 0 {
            Some(text)
        } else {
            None
        },
        _ => None,
    }
}

/// Tells whether an answer shows that the pattern is a regular expression.
pub fn is_accepted(found: &Found) -> (ok: bool)
    ensures
        ok == !(found@ is Invalid),
{
    match found {
        Found::Invalid => false,
        _ => true,
    }
}

/// Runs `pattern` at the start of `rest`.
pub fn prefix_match(pattern: &str, rest: &str) -> (matched: Option<String>)
    ensures
        matched is Some <==> match_at_start(pattern@, rest@) is Some,
        matched matches Some(text) ==> match_at_start(pattern@, rest@) == Some(text@),
{
    leading_text(find_first(pattern, rest))
}

/// Tells whether the engine accepts `pattern`.
pub fn pattern_compiles(pattern: &str) -> (ok: bool)
    ensures
        ok == compiles(pattern@),
{
    proof {
        reveal_strlit("");
        assert(""@ =~= Seq::<char>::empty());
    }
    let found = find_first(pattern, "");
    is_accepted(&found)
}

} // verus!
