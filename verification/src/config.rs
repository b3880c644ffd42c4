//! Checking a configuration before a parser is made of it.
//!
//! Every token type needs a way to be recognised: a pattern, or a name made
//! of punctuation alone, which is then matched letter for letter. A name in
//! the precedence table is a token type, unless it stands alone in its
//! level: such a level only marks a precedence for rules to refer to.

use vstd::prelude::*;
use crate::errors::{Error, Failure};
use crate::matcher::{compiles, pattern_compiles};
use crate::tables::{find_rule, levels_view, lists, lookup, names_view, table_view};
use crate::tokenizer::{KindView, TokenKind};

verus! {

/// True for the punctuation characters of ASCII.
pub open spec fn is_symbol_char(c: char) -> bool {
    let n = c as u32;
    33 <= n <= 47 || 58 <= n <= 64 || 91 <= n <= 96 || 123 <= n <= 126
}

/// True for a name that can stand for itself in the input: one or more
/// punctuation characters and nothing else.
pub open spec fn is_bare_symbol(name: Seq<char>) -> bool {
    name.len() > 0 && forall|i: int| 0 <= i < name.len() ==> is_symbol_char(#[trigger] name[i])
}

/// A pattern table over sequences of characters.
pub open spec fn patterns_view(patterns: Seq<(String, String)>) -> Seq<(Seq<char>, Seq<char>)> {
    patterns.map_values(|entry: (String, String)| (entry.0@, entry.1@))
}

/// The kind that the token type `name` makes: with its pattern if the table
/// has one for it.
pub open spec fn kind_for(patterns: Seq<(Seq<char>, Seq<char>)>, name: Seq<char>) -> KindView {
    KindView { name, pattern: find_rule(patterns, name, 0) }
}

/// The kinds that the token types make, in their order.
pub open spec fn kinds_for(
    patterns: Seq<(Seq<char>, Seq<char>)>,
    token_types: Seq<Seq<char>>,
) -> Seq<KindView> {
    token_types.map_values(|name: Seq<char>| kind_for(patterns, name))
}

/// The message for a skip pattern that the engine refuses.
pub open spec fn bad_skip() -> Seq<char> {
    "the skip pattern is not a regular expression"@
}

/// The message for a token type whose pattern the engine refuses.
pub open spec fn bad_pattern(name: Seq<char>) -> Seq<char> {
    "the pattern of token type "@ + name + " is not a regular expression"@
}

/// The message for a token type that nothing can recognise.
pub open spec fn no_pattern(name: Seq<char>) -> Seq<char> {
    "token type "@ + name + " has no pattern"@
}

/// The message for a name in the precedence table that is no token type.
pub open spec fn unknown_token(name: Seq<char>) -> Seq<char> {
    "unknown token type "@ + name + " in the precedence table"@
}

/// What is wrong with the token type `name`, if anything.
pub open spec fn kind_fault(patterns: Seq<(Seq<char>, Seq<char>)>, name: Seq<char>) -> Option<
    Failure,
> {
    match find_rule(patterns, name, 0) {
        Some(pattern) => if compiles(pattern) {
            None
        } else {
            Some(Failure::Syntax(bad_pattern(name)))
        },
        None => if is_bare_symbol(name) {
            None
        } else {
            Some(Failure::Syntax(no_pattern(name)))
        },
    }
}

/// What is wrong with the first faulty token type from index `from` on.
pub open spec fn kinds_fault(
    patterns: Seq<(Seq<char>, Seq<char>)>,
    token_types: Seq<Seq<char>>,
    from: nat,
) -> Option<Failure>
    decreases token_types.len() - from,
{
    if from >= token_types.len() {
        None
    } else {
        match kind_fault(patterns, token_types[from as int]) {
            Some(fault) => Some(fault),
            None => kinds_fault(patterns, token_types, from + 1),
        }
    }
}

/// The first name of `level` from index `from` on that is no token type.
pub open spec fn unknown_in(token_types: Seq<Seq<char>>, level: Seq<Seq<char>>, from: nat) -> Option<
    Seq<char>,
>
    decreases level.len() - from,
{
    if from >= level.len() {
        None
    } else if token_types.contains(level[from as int]) {
        unknown_in(token_types, level, from + 1)
    } else {
        Some(level[from as int])
    }
}

/// What is wrong with `level`, if anything: a level of one name is in
/// order whatever the name; in any other, every name is a token type.
pub open spec fn level_fault(token_types: Seq<Seq<char>>, level: Seq<Seq<char>>) -> Option<
    Failure,
> {
    if level.len() == 1 {
        None
    } else {
        match unknown_in(token_types, level, 0) {
            Some(name) => Some(Failure::Syntax(unknown_token(name))),
            None => None,
        }
    }
}

/// What is wrong with the first faulty level from index `from` on.
pub open spec fn levels_fault(
    token_types: Seq<Seq<char>>,
    levels: Seq<Seq<Seq<char>>>,
    from: nat,
) -> Option<Failure>
    decreases levels.len() - from,
{
    if from >= levels.len() {
        None
    } else {
        match level_fault(token_types, levels[from as int]) {
            Some(fault) => Some(fault),
            None => levels_fault(token_types, levels, from + 1),
        }
    }
}

/// What is wrong with a configuration, if anything: the skip pattern is
/// looked at first, then the token types in their order, then the levels.
pub open spec fn config_fault(
    skip: Seq<char>,
    patterns: Seq<(Seq<char>, Seq<char>)>,
    token_types: Seq<Seq<char>>,
    levels: Seq<Seq<Seq<char>>>,
) -> Option<Failure> {
    if !compiles(skip) {
        Some(Failure::Syntax(bad_skip()))
    } else {
        match kinds_fault(patterns, token_types, 0) {
            Some(fault) => Some(fault),
            None => levels_fault(token_types, levels, 0),
        }
    }
}

/// Looking a name up in the pattern table gives the view of what looking
/// it up in the table of strings gives.
pub proof fn lemma_find_pattern(patterns: Seq<(String, String)>, name: Seq<char>, from: nat)
    ensures
        find_rule(patterns_view(patterns), name, from) == match find_rule(
            table_view(patterns),
            name,
            from,
        ) {
            Some(pattern) => Some(pattern@),
            None => None,
        },
    decreases patterns.len() - from,
{
    if from < patterns.len() {
        if patterns[from as int].0@ != name {
            lemma_find_pattern(patterns, name, from + 1);
        }
    }
}

/// A faulty token type at or after index `from` makes the token types
/// faulty from `from` on.
proof fn lemma_kinds_fault(
    patterns: Seq<(Seq<char>, Seq<char>)>,
    token_types: Seq<Seq<char>>,
    from: nat,
    index: int,
)
    requires
        from <= index < token_types.len(),
        kind_fault(patterns, token_types[index]) is Some,
    ensures
        kinds_fault(patterns, token_types, from) is Some,
    decreases index - from,
{
    if from < index && kind_fault(patterns, token_types[from as int]) is None {
        lemma_kinds_fault(patterns, token_types, from + 1, index);
    }
}

/// A token type that nothing can recognise spoils the configuration: with
/// a token type that has no pattern and is not made of punctuation alone,
/// no parser is made, whatever else the configuration holds.
pub proof fn law_token_type_without_pattern(
    skip: Seq<char>,
    patterns: Seq<(Seq<char>, Seq<char>)>,
    token_types: Seq<Seq<char>>,
    levels: Seq<Seq<Seq<char>>>,
    index: int,
)
    requires
        0 <= index < token_types.len(),
        find_rule(patterns, token_types[index], 0) is None,
        !is_bare_symbol(token_types[index]),
    ensures
        config_fault(skip, patterns, token_types, levels) is Some,
{
    lemma_kinds_fault(patterns, token_types, 0, index);
}

/// Tells whether `c` is a punctuation character of ASCII.
pub fn symbol_char(c: char) -> (b: bool)
    ensures
        b == is_symbol_char(c),
{
    let n: u32 = c as u32;
    (33 <= n && n <= 47) || (58 <= n && n <= 64) || (91 <= n && n <= 96) || (123 <= n && n
        <= 126)
}

/// Tells whether `name` can stand for itself in the input.
pub fn bare_symbol(name: &str) -> (b: bool)
    ensures
        b == is_bare_symbol(name@),
{
    let n: usize = name.unicode_len();
    if n == 0 {
        return false;
    }
    let mut i: usize = 0;
    while i < n
        invariant
            n == name@.len(),
            i <= n,
            forall|j: int| 0 <= j < i ==> is_symbol_char(#[trigger] name@[j]),
        decreases n - i,
    {
        if !symbol_char(name.get_char(i)) {
            return false;
        }
        i += 1;
    }
    true
}

fn fault(before: &str, name: &str, after: &str) -> (e: Error)
    ensures
        e@ == Failure::Syntax(before@ + name@ + after@),
{
    Error::SyntaxError(String::from_str(before).concat(name).concat(after))
}

/// Makes the kind of the token type `name`, or says what is wrong with it.
pub fn make_kind(patterns: &Vec<(String, String)>, name: &String) -> (made: Result<TokenKind, Error>)
    ensures
        match made {
            Ok(kind) => kind_fault(patterns_view(patterns@), name@) is None && kind@ == kind_for(
                patterns_view(patterns@),
                name@,
            ),
            Err(e) => kind_fault(patterns_view(patterns@), name@) == Some(e@),
        },
{
    proof {
        lemma_find_pattern(patterns@, name@, 0);
    }
    match lookup(patterns, name) {
        Some(pattern) => if pattern_compiles(pattern.as_str()) {
            Ok(TokenKind { name: name.clone(), pattern: Some(pattern.clone()) })
        } else {
            Err(fault("the pattern of token type ", name.as_str(), " is not a regular expression"))
        },
        None => if bare_symbol(name.as_str()) {
            Ok(TokenKind { name: name.clone(), pattern: None })
        } else {
            Err(fault("token type ", name.as_str(), " has no pattern"))
        },
    }
}

/// Makes the kinds of all token types, in their order, or says what is
/// wrong with the first faulty one.
pub fn make_kinds(patterns: &Vec<(String, String)>, token_types: &Vec<String>) -> (made: Result<
    Vec<TokenKind>,
    Error,
>)
    ensures
        match made {
            Ok(kinds) => kinds_fault(patterns_view(patterns@), names_view(token_types@), 0)
                is None && kinds@.map_values(|k: TokenKind| k@) == kinds_for(
                patterns_view(patterns@),
                names_view(token_types@),
            ),
            Err(e) => kinds_fault(patterns_view(patterns@), names_view(token_types@), 0) == Some(
                e@,
            ),
        },
{
    let ghost table = patterns_view(patterns@);
    let ghost names = names_view(token_types@);
    let mut kinds: Vec<TokenKind> = Vec::new();
    let mut i: usize = 0;
    while i < token_types.len()
        invariant
            i <= token_types.len(),
            table == patterns_view(patterns@),
            names == names_view(token_types@),
            kinds@.len() == i,
            forall|j: int| 0 <= j < i ==> (#[trigger] kinds@[j])@ == kind_for(table, names[j]),
            kinds_fault(table, names, 0) == kinds_fault(table, names, i as nat),
        decreases token_types.len() - i,
    {
        match make_kind(patterns, &token_types[i]) {
            Err(e) => {
                return Err(e);
            },
            Ok(kind) => {
                kinds.push(kind);
            },
        }
        i += 1;
    }
    proof {
        assert(kinds@.map_values(|k: TokenKind| k@) =~= kinds_for(table, names));
    }
    Ok(kinds)
}

/// Looks for a name in `level` that is no token type.
pub fn find_unknown<'l>(token_types: &Vec<String>, level: &'l Vec<String>) -> (found: Option<
    &'l String,
>)
    ensures
        match found {
            Some(name) => unknown_in(names_view(token_types@), names_view(level@), 0) == Some(
                name@,
            ),
            None => unknown_in(names_view(token_types@), names_view(level@), 0) is None,
        },
{
    let mut j: usize = 0;
    while j < level.len()
        invariant
            j <= level.len(),
            unknown_in(names_view(token_types@), names_view(level@), 0) == unknown_in(
                names_view(token_types@),
                names_view(level@),
                j as nat,
            ),
        decreases level.len() - j,
    {
        if !lists(token_types, &level[j]) {
            return Some(&level[j]);
        }
        j += 1;
    }
    None
}

/// Says what is wrong with the first faulty level, if any is.
pub fn check_levels(token_types: &Vec<String>, levels: &Vec<Vec<String>>) -> (found: Option<Error>)
    ensures
        match found {
            Some(e) => levels_fault(names_view(token_types@), levels_view(levels@), 0) == Some(e@),
            None => levels_fault(names_view(token_types@), levels_view(levels@), 0) is None,
        },
{
    let mut i: usize = 0;
    while i < levels.len()
        invariant
            i <= levels.len(),
            levels_fault(names_view(token_types@), levels_view(levels@), 0) == levels_fault(
                names_view(token_types@),
                levels_view(levels@),
                i as nat,
            ),
        decreases levels.len() - i,
    {
        let level = &levels[i];
        assert(levels_view(levels@)[i as int] == names_view(level@));
        if level.len() != 1 {
            match find_unknown(token_types, level) {
                Some(name) => {
                    return Some(
                        fault("unknown token type ", name.as_str(), " in the precedence table"),
                    );
                },
                None => {},
            }
        }
        i += 1;
    }
    None
}

/// Adds a pattern at the end of a pattern table.
pub fn add_pattern(patterns: &mut Vec<(String, String)>, token_type: &str, pattern: &str)
    ensures
        patterns_view(final(patterns)@) == patterns_view(old(patterns)@).push(
            (token_type@, pattern@),
        ),
{
    patterns.push((String::from_str(token_type), String::from_str(pattern)));
    proof {
        assert(patterns_view(patterns@) =~= patterns_view(old(patterns)@).push(
            (token_type@, pattern@),
        ));
    }
}

} // verus!
