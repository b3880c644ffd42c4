//! Tables keyed by a token type, and the precedence levels.
//!
//! A table is a list of entries, searched from the front: the first entry
//! for a token type is the one that counts.

use vstd::prelude::*;

verus! {

/// A rule table with its token types as sequences of characters.
pub open spec fn table_view<R>(table: Seq<(String, R)>) -> Seq<(Seq<char>, R)> {
    table.map_values(|entry: (String, R)| (entry.0@, entry.1))
}

/// Precedence levels with their names as sequences of characters.
pub open spec fn levels_view(levels: Seq<Vec<String>>) -> Seq<Seq<Seq<char>>> {
    levels.map_values(|level: Vec<String>| names_view(level@))
}

/// A list of names as sequences of characters.
pub open spec fn names_view(names: Seq<String>) -> Seq<Seq<char>> {
    names.map_values(|name: String| name@)
}

/// What the first entry from index `from` on holds for the token type `tag`.
pub open spec fn find_rule<R>(table: Seq<(Seq<char>, R)>, tag: Seq<char>, from: nat) -> Option<R>
    decreases table.len() - from,
{
    if from >= table.len() {
        None
    } else if table[from as int].0 == tag {
        Some(table[from as int].1)
    } else {
        find_rule(table, tag, from + 1)
    }
}

/// The index of the first level from `from` on that lists `tag`: its
/// precedence.
pub open spec fn level_of(levels: Seq<Seq<Seq<char>>>, tag: Seq<char>, from: nat) -> Option<nat>
    decreases levels.len() - from,
{
    if from >= levels.len() {
        None
    } else if levels[from as int].contains(tag) {
        Some(from)
    } else {
        level_of(levels, tag, from + 1)
    }
}

/// Looks `tag` up in a rule table.
pub fn lookup<'t, R>(table: &'t Vec<(String, R)>, tag: &String) -> (found: Option<&'t R>)
    ensures
        match found {
            Some(rule) => find_rule(table_view(table@), tag@, 0) == Some(*rule),
            None => find_rule(table_view(table@), tag@, 0) is None,
        },
{
    let mut i: usize = 0;
    while i < table.len()
        invariant
            i <= table.len(),
            find_rule(table_view(table@), tag@, 0) == find_rule(
                table_view(table@),
                tag@,
                i as nat,
            ),
        decreases table.len() - i,
    {
        if table[i].0 == *tag {
            return Some(&table[i].1);
        }
        i += 1;
    }
    None
}

/// Tells whether `names` lists `tag`.
pub fn lists(names: &Vec<String>, tag: &String) -> (found: bool)
    ensures
        found == names_view(names@).contains(tag@),
{
    let mut j: usize = 0;
    while j < names.len()
        invariant
            j <= names.len(),
            forall|k: int| 0 <= k < j ==> (#[trigger] names_view(names@)[k]) != tag@,
        decreases names.len() - j,
    {
        if names[j] == *tag {
            assert(names_view(names@)[j as int] == tag@);
            return true;
        }
        j += 1;
    }
    false
}

/// The precedence of `tag`: the index of the first level that lists it.
pub fn precedence(levels: &Vec<Vec<String>>, tag: &String) -> (level: Option<usize>)
    ensures
        match level {
            Some(l) => level_of(levels_view(levels@), tag@, 0) == Some(l as nat),
            None => level_of(levels_view(levels@), tag@, 0) is None,
        },
{
    let mut i: usize = 0;
    while i < levels.len()
        invariant
            i <= levels.len(),
            level_of(levels_view(levels@), tag@, 0) == level_of(
                levels_view(levels@),
                tag@,
                i as nat,
            ),
        decreases levels.len() - i,
    {
        if lists(&levels[i], tag) {
            return Some(i);
        }
        i += 1;
    }
    None
}

/// A precedence is the index of a level.
pub proof fn lemma_level_of_bound(levels: Seq<Seq<Seq<char>>>, tag: Seq<char>, from: nat)
    ensures
        level_of(levels, tag, from) matches Some(level) ==> from <= level < levels.len()
            && levels[level as int].contains(tag),
    decreases levels.len() - from,
{
    if from < levels.len() && !levels[from as int].contains(tag) {
        lemma_level_of_bound(levels, tag, from + 1);
    }
}

/// Adds a name at the end of a list of names.
pub fn add_name(names: &mut Vec<String>, name: &str)
    ensures
        names_view(final(names)@) == names_view(old(names)@).push(name@),
{
    names.push(String::from_str(name));
    proof {
        assert(names_view(names@) =~= names_view(old(names)@).push(name@));
    }
}

/// Adds a level above the levels already there.
pub fn add_level(levels: &mut Vec<Vec<String>>, level: Vec<String>)
    ensures
        levels_view(final(levels)@) == levels_view(old(levels)@).push(names_view(level@)),
{
    let ghost names = names_view(level@);
    levels.push(level);
    proof {
        assert(levels_view(levels@) =~= levels_view(old(levels)@).push(names));
    }
}

/// Adds an entry at the end of a table.
pub fn add_entry<R>(table: &mut Vec<(String, R)>, token_type: &str, rule: R)
    ensures
        table_view(final(table)@) == table_view(old(table)@).push((token_type@, rule)),
{
    table.push((String::from_str(token_type), rule));
    proof {
        assert(table_view(table@) =~= table_view(old(table)@).push((token_type@, rule)));
    }
}

} // verus!
