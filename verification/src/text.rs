//! Strings as sequences of characters.

use vstd::prelude::*;

verus! {

/// The characters of a string, in order.
pub fn chars_of(s: &str) -> (chars: Vec<char>)
    ensures
        chars@ == s@,
{
    let mut chars: Vec<char> = Vec::new();
    for c in it: s.chars()
        invariant
            it.seq() == s@,
            chars@ == it.seq().subrange(0, it.index() as int),
    {
        chars.push(c);
    }
    chars
}

/// Collects characters into a string with `String::from_iter`: the string
/// holds the given characters in the given order.
#[verifier::external_body]
pub(crate) fn string_from_chars(chars: &Vec<char>) -> (s: String)
    ensures
        s@ == chars@,
{
    String::from_iter(chars.iter())
}

/// A letter in lower case, where it is one of the 26 upper case letters.
pub open spec fn ascii_lower(c: char) -> char {
    if 'A' <= c <= 'Z' {
        (c as u32 + 32) as char
    } else {
        c
    }
}

/// Whether a text starts with a word, in upper or lower case. The word is given in
/// lower case.
pub open spec fn starts_with_word(text: Seq<char>, word: Seq<char>) -> bool {
    &&& text.len() >= word.len()
    &&& forall|i: int| 0 <= i < word.len() ==> ascii_lower(#[trigger] text[i]) == word[i]
}

/// Whether a text is a word, in upper or lower case. The word is given in lower case.
pub open spec fn is_word(text: Seq<char>, word: Seq<char>) -> bool {
    text.len() == word.len() && starts_with_word(text, word)
}

/// A letter in lower case, where it is one of the 26 upper case letters.
pub fn lowercase(c: char) -> (lower: char)
    ensures
        lower == ascii_lower(c),
{
    if 'A' <= c && c <= 'Z' {
        ((c as u8) + 32) as char
    } else {
        c
    }
}

/// Checks if a text starts with a word, in upper or lower case. The word is given
/// in lower case.
pub fn starts_with_ignoring_case(text: &[char], word: &str) -> (starts: bool)
    ensures
        starts == starts_with_word(text@, word@),
{
    let letters = chars_of(word);
    if text.len() < letters.len() {
        return false;
    }
    let mut at: usize = 0;
    while at < letters.len()
        invariant
            letters@ == word@,
            at <= letters.len() <= text.len(),
            forall|i: int| 0 <= i < at ==> ascii_lower(#[trigger] text[i]) == letters[i],
        decreases letters.len() - at,
    {
        if lowercase(text[at]) != letters[at] {
            return false;
        }
        at += 1;
    }
    true
}

/// Checks if a text is a word, in upper or lower case. The word is given in lower
/// case.
pub fn equals_ignoring_case(text: &[char], word: &str) -> (equal: bool)
    ensures
        equal == is_word(text@, word@),
{
    text.len() == word.unicode_len() && starts_with_ignoring_case(text, word)
}

} // verus!
