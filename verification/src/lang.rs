//! Guessing the language of a page from its title.

use vstd::prelude::*;
use vstd::string::*;
use crate::text::{lowercase, to_lowercase};

verus! {

broadcast use vstd::string::group_string_axioms;

/// A lowercase letter of the Russian alphabet: `а` to `я`, or `ё`.
pub open spec fn is_russian_lower(c: char) -> bool {
    ('а' <= c && c <= 'я') || c == 'ё'
}

/// A lowercase letter of the basic Latin alphabet.
pub open spec fn is_latin_lower(c: char) -> bool {
    'a' <= c && c <= 'z'
}

/// The language code for an already lower-cased text: Russian as soon as a
/// Russian letter occurs, else English when a Latin letter occurs, and
/// Russian, the default, when neither does.
pub open spec fn language_code(lower: Seq<char>) -> Seq<char> {
    if exists|i: int| 0 <= i < lower.len() && is_russian_lower(#[trigger] lower[i]) {
        "ru"@
    } else if exists|i: int| 0 <= i < lower.len() && is_latin_lower(#[trigger] lower[i]) {
        "en"@
    } else {
        "ru"@
    }
}

/// The language code of a text that is already lower-cased.
pub fn language_of_lowercase(lower: &str) -> (res: String)
    ensures
        res@ == language_code(lower@),
{
    let mut russian = false;
    let mut latin = false;
    for c in it: lower.chars()
        invariant
            it.seq() == lower@,
            russian == exists|k: int| 0 <= k < it.index() && is_russian_lower(#[trigger] lower@[k]),
            latin == exists|k: int| 0 <= k < it.index() && is_latin_lower(#[trigger] lower@[k]),
    {
        if ('а' <= c && c <= 'я') || c == 'ё' {
            russian = true;
        }
        if 'a' <= c && c <= 'z' {
            latin = true;
        }
    }
    if russian {
        String::from_str("ru")
    } else if latin {
        String::from_str("en")
    } else {
        String::from_str("ru")
    }
}

/// Guesses the language of a text: `"ru"` when its lower-cased form holds a
/// Russian letter, else `"en"` when it holds a Latin letter, else `"ru"`.
pub fn detect_language(text: &str) -> (res: String)
    ensures
        res@ == language_code(lowercase(text@)),
{
    let lower = to_lowercase(text);
    language_of_lowercase(lower.as_str())
}

} // verus!

verus! {

/// Law: every text is detected as Russian or as English.
pub proof fn lemma_language_is_ru_or_en(text: Seq<char>)
    ensures
        language_code(lowercase(text)) == "ru"@ || language_code(lowercase(text)) == "en"@,
{
}

/// Law: a Russian letter decides: a lower-cased text that holds one is
/// Russian, whatever Latin letters it holds besides.
pub proof fn lemma_russian_letter_decides(lower: Seq<char>, i: int)
    requires
        0 <= i < lower.len(),
        is_russian_lower(lower[i]),
    ensures
        language_code(lower) == "ru"@,
{
}

} // verus!
