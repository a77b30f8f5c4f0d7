//! Text primitives shared by the rest of the library: lower-casing,
//! white space, byte-level substring search (as `str::find` performs it) and
//! character prefixes.

use vstd::prelude::*;
use vstd::string::*;
use vstd::utf8::encode_utf8;

verus! {

broadcast use vstd::string::group_string_axioms;

/// What `str::to_lowercase` returns for a string: its lowercase equivalent
/// by the Unicode case mappings, which may change the number of characters.
pub uninterp spec fn lowercase(s: Seq<char>) -> Seq<char>;

/// Calls `str::to_lowercase`. Its result is named `lowercase`: the Unicode
/// lower-casing it performs is a function of the text alone, and nothing
/// more of it is claimed here.
#[verifier::external_body]
pub(crate) fn to_lowercase(s: &str) -> (res: String)
    ensures
        res@ == lowercase(s@),
{
    s.to_lowercase()
}

/// The characters with the Unicode `White_Space` property, which
/// `char::is_whitespace` and `str::trim` go by: U+0009 to U+000D, U+0020,
/// U+0085, U+00A0, U+1680, U+2000 to U+200A, U+2028, U+2029, U+202F, U+205F
/// and U+3000.
pub open spec fn white_space(c: char) -> bool {
    ||| ('\u{9}' <= c && c <= '\u{d}')
    ||| c == ' '
    ||| c == '\u{85}'
    ||| c == '\u{a0}'
    ||| c == '\u{1680}'
    ||| ('\u{2000}' <= c && c <= '\u{200a}')
    ||| c == '\u{2028}'
    ||| c == '\u{2029}'
    ||| c == '\u{202f}'
    ||| c == '\u{205f}'
    ||| c == '\u{3000}'
}

/// Whether a character is white space, as `char::is_whitespace` decides.
pub fn is_white_space(c: char) -> (res: bool)
    ensures
        res == white_space(c),
{
    ('\u{9}' <= c && c <= '\u{d}') || c == ' ' || c == '\u{85}' || c == '\u{a0}' || c == '\u{1680}'
        || ('\u{2000}' <= c && c <= '\u{200a}') || c == '\u{2028}' || c == '\u{2029}' || c
        == '\u{202f}' || c == '\u{205f}' || c == '\u{3000}'
}

/// Calls `String::push`, which appends one character.
#[verifier::external_body]
fn push_char(s: &mut String, c: char)
    ensures
        final(s)@ == old(s)@.push(c),
{
    s.push(c)
}

/// A text is blank when every character of it is white space, which is
/// when `str::trim` leaves nothing of it.
pub open spec fn is_blank(s: Seq<char>) -> bool {
    forall|i: int| 0 <= i < s.len() ==> white_space(#[trigger] s[i])
}

/// Whether `s.trim()` is empty: every character of `s` is white space.
pub fn trims_to_empty(s: &str) -> (res: bool)
    ensures
        res == is_blank(s@),
{
    let mut all = true;
    for c in it: s.chars()
        invariant
            it.seq() == s@,
            all == forall|k: int| 0 <= k < it.index() ==> white_space(#[trigger] s@[k]),
    {
        all = all && is_white_space(c);
    }
    all
}

/// The first `n` characters of `s`, or all of them when it has fewer.
pub fn first_chars(s: &str, n: usize) -> (res: String)
    ensures
        res@ == s@.take(if s@.len() < n { s@.len() as int } else { n as int }),
{
    let mut res = String::new();
    let mut count: usize = 0;
    for c in it: s.chars()
        invariant
            it.seq() == s@,
            count <= n,
            count <= it.index(),
            res@ == s@.take(count as int),
            count < n ==> count == it.index(),
    {
        if count < n {
            push_char(&mut res, c);
            count = count + 1;
        }
    }
    res
}

/// `needle` occurs in `hay` at byte offset `i`.
pub open spec fn occurs_at(hay: Seq<u8>, needle: Seq<u8>, i: int) -> bool {
    &&& 0 <= i
    &&& i + needle.len() <= hay.len()
    &&& hay.subrange(i, i + needle.len()) == needle
}

/// The first offset at which `needle` occurs in `hay`, if there is one.
pub open spec fn first_occurrence(hay: Seq<u8>, needle: Seq<u8>) -> Option<int> {
    if exists|i: int| occurs_at(hay, needle, i) {
        Some(choose|i: int| occurs_at(hay, needle, i) && forall|j: int| 0 <= j < i ==> !occurs_at(hay, needle, j))
    } else {
        None
    }
}

fn matches_at(hay: &[u8], needle: &[u8], i: usize) -> (res: bool)
    requires
        i + needle@.len() <= hay@.len(),
    ensures
        res == occurs_at(hay@, needle@, i as int),
{
    let m = needle.len();
    let mut k: usize = 0;
    while k < m
        invariant
            m == needle@.len(),
            i + m <= hay@.len(),
            hay@.len() == hay.len(),
            0 <= k <= m,
            forall|t: int| 0 <= t < k ==> hay@[i + t] == needle@[t],
        decreases m - k,
    {
        if hay[i + k] != needle[k] {
            assert(hay@.subrange(i as int, i + m)[k as int] != needle@[k as int]);
            return false;
        }
        k = k + 1;
    }
    assert(hay@.subrange(i as int, i + m) =~= needle@);
    true
}

/// The byte offset of the first occurrence of `needle` in `hay`.
pub fn find_bytes(hay: &[u8], needle: &[u8]) -> (res: Option<usize>)
    ensures
        match res {
            Some(i) => occurs_at(hay@, needle@, i as int) && forall|j: int|
                0 <= j < i ==> !occurs_at(hay@, needle@, j),
            None => forall|j: int| !occurs_at(hay@, needle@, j),
        },
{
    let n = hay.len();
    let m = needle.len();
    if m > n {
        return None;
    }
    let mut i: usize = 0;
    while i <= n - m
        invariant
            n == hay@.len(),
            m == needle@.len(),
            m <= n,
            i <= n - m + 1,
            forall|j: int| 0 <= j < i ==> !occurs_at(hay@, needle@, j),
        decreases n - m + 1 - i,
    {
        if matches_at(hay, needle, i) {
            return Some(i);
        }
        if i == n - m {
            return None;
        }
        i = i + 1;
    }
    None
}

} // verus!

verus! {

/// The byte offset of the first occurrence of `needle` in `hay`, as
/// `str::find` gives it.
pub fn find_str(hay: &str, needle: &str) -> (res: Option<usize>)
    ensures
        match res {
            Some(i) => occurs_at(encode_utf8(hay@), encode_utf8(needle@), i as int) && forall|j: int|
                0 <= j < i ==> !occurs_at(encode_utf8(hay@), encode_utf8(needle@), j),
            None => forall|j: int| !occurs_at(encode_utf8(hay@), encode_utf8(needle@), j),
        },
{
    find_bytes(hay.as_bytes(), needle.as_bytes())
}

/// Whether `needle` occurs in `hay`, as `str::contains` decides.
pub fn contains_str(hay: &str, needle: &str) -> (res: bool)
    ensures
        res == exists|j: int| occurs_at(encode_utf8(hay@), encode_utf8(needle@), j),
{
    match find_str(hay, needle) {
        Some(i) => {
            assert(occurs_at(encode_utf8(hay@), encode_utf8(needle@), i as int));
            true
        },
        None => false,
    }
}

} // verus!
