//! Texts: comparison, and search that ignores ASCII case.

use vstd::prelude::*;

verus! {

/// An optional text as characters.
pub open spec fn text_of(text: Option<String>) -> Option<Seq<char>> {
    match text {
        Some(text) => Some(text@),
        None => None,
    }
}

/// Whether two optional texts are the same.
pub(crate) fn same_text(one: &Option<String>, other: &Option<String>) -> (same: bool)
    ensures
        same == (text_of(*one) == text_of(*other)),
{
    match (one, other) {
        (Some(one), Some(other)) => *one == *other,
        (None, None) => true,
        _ => false,
    }
}

/// The lower-case form of an ASCII letter; any other character is its own.
pub open spec fn ascii_lower(c: char) -> char {
    if 'A' <= c <= 'Z' {
        ((c as u8) + 32) as char
    } else {
        c
    }
}

/// A text with its ASCII letters in lower case.
pub open spec fn ascii_lowercase(text: Seq<char>) -> Seq<char> {
    text.map_values(|c: char| ascii_lower(c))
}

/// `part` stands somewhere in `text` without a gap.
pub open spec fn contains_text(text: Seq<char>, part: Seq<char>) -> bool {
    exists|at: int| #[trigger] stands_at(text, part, at)
}

/// `part` stands in `text` from position `at` on.
pub open spec fn stands_at(text: Seq<char>, part: Seq<char>, at: int) -> bool {
    &&& 0 <= at
    &&& at + part.len() <= text.len()
    &&& text.subrange(at, at + part.len()) == part
}

fn char_to_ascii_lowercase(c: char) -> (lower: char)
    ensures
        lower == ascii_lower(c),
{
    if 'A' <= c && c <= 'Z' {
        (c as u8 + 32) as char
    } else {
        c
    }
}

/// The characters of `text`, its ASCII letters in lower case.
pub(crate) fn to_ascii_lowercase(text: &str) -> (lower: Vec<char>)
    ensures
        lower@ == ascii_lowercase(text@),
{
    let mut lower: Vec<char> = Vec::new();
    for c in it: text.chars()
        invariant
            lower@ == ascii_lowercase(text@.take(it.index() as int)),
            it.seq() == text@,
    {
        lower.push(char_to_ascii_lowercase(c));
    }
    lower
}

/// The characters of `text`.
fn characters(text: &str) -> (chars: Vec<char>)
    ensures
        chars@ == text@,
{
    let mut chars: Vec<char> = Vec::new();
    for c in it: text.chars()
        invariant
            chars@ == text@.take(it.index() as int),
            it.seq() == text@,
    {
        chars.push(c);
    }
    chars
}

/// Whether `part` occurs in `text`.
pub(crate) fn contains(text: &Vec<char>, part: &str) -> (found: bool)
    ensures
        found == contains_text(text@, part@),
{
    let part_chars: Vec<char> = characters(part);
    if part_chars.len() > text.len() {
        return false;
    }
    let last: usize = text.len() - part_chars.len();
    let mut at: usize = 0;
    loop
        invariant
            part_chars@ == part@,
            at <= last,
            last + part_chars.len() == text.len(),
            forall|k: int| 0 <= k < at ==> !#[trigger] stands_at(text@, part@, k),
        decreases last - at,
    {
        let mut matched: usize = 0;
        while matched < part_chars.len() && text[at + matched] == part_chars[matched]
            invariant
                part_chars@ == part@,
                at + part_chars.len() <= text.len(),
                matched <= part_chars.len(),
                forall|k: int| 0 <= k < matched ==> text@[at + k] == #[trigger] part@[k],
            decreases part_chars.len() - matched,
        {
            matched = matched + 1;
        }
        if matched == part_chars.len() {
            assert(text@.subrange(at as int, at + part@.len()) =~= part@);
            assert(stands_at(text@, part@, at as int));
            return true;
        }
        assert(!stands_at(text@, part@, at as int)) by {
            let window = text@.subrange(at as int, at + part@.len());
            assert(window[matched as int] != part@[matched as int]);
        }
        if at == last {
            return false;
        }
        at = at + 1;
    }
}

} // verus!
