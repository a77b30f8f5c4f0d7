//! Tags are stored as a JSON array of strings; this module reads and writes
//! that form through `serde_json`.

use vstd::prelude::*;
use vstd::string::*;

verus! {

broadcast use vstd::string::group_string_axioms;

#[verifier::external_type_specification]
#[verifier::external_body]
pub struct ExJsonError(serde_json::Error);

/// What `serde_json::from_str::<Vec<String>>` makes of a text: the strings
/// of the JSON array it holds, or nothing when it is not such an array.
pub uninterp spec fn json_string_array(text: Seq<char>) -> Option<Seq<Seq<char>>>;

/// What `serde_json::to_string` makes of a list of strings: the JSON array
/// text, or nothing when serialization fails.
pub uninterp spec fn json_array_text(items: Seq<Seq<char>>) -> Option<Seq<char>>;

/// Calls `serde_json::from_str::<Vec<String>>`. Its outcome is named
/// `json_string_array`, a function of the text alone; the JSON grammar it
/// decides by is not restated here.
#[verifier::external_body]
fn parse_string_array(text: &str) -> (res: Result<Vec<String>, serde_json::Error>)
    ensures
        res is Ok <==> json_string_array(text@) is Some,
        res matches Ok(v) ==> json_string_array(text@) == Some(v.deep_view()),
{
    serde_json::from_str(text)
}

/// Calls `serde_json::to_string` on a list of strings. Its outcome is named
/// `json_array_text`, a function of the strings alone; the escaping rules it
/// follows are not restated here. Two facts are stated: it does not fail (it
/// fails only when a `Serialize` impl decides to, or for a map with
/// non-string keys, and neither `Vec` nor `String` does), and
/// `serde_json::from_str::<Vec<String>>` reads the same strings back from
/// the text it writes.
#[verifier::external_body]
fn write_string_array(items: &Vec<String>) -> (res: Result<String, serde_json::Error>)
    ensures
        res is Ok,
        res is Ok <==> json_array_text(items.deep_view()) is Some,
        res matches Ok(s) ==> json_array_text(items.deep_view()) == Some(s@),
        res matches Ok(s) ==> json_string_array(s@) == Some(items.deep_view()),
{
    serde_json::to_string(items)
}

/// The tags stored in `text`: the strings of the JSON array it holds, or no
/// tags at all when it holds none.
pub open spec fn stored_tags(text: Seq<char>) -> Seq<Seq<char>> {
    match json_string_array(text) {
        Some(tags) => tags,
        None => Seq::empty(),
    }
}

/// The stored form of a list of tags: their JSON array, or `[]` should
/// serialization fail.
pub open spec fn tags_text(tags: Seq<Seq<char>>) -> Seq<char> {
    match json_array_text(tags) {
        Some(text) => text,
        None => "[]"@,
    }
}

/// Reads the tags stored as a JSON array; a text that is not one yields no
/// tags.
pub fn tags_from_json(text: &str) -> (res: Vec<String>)
    ensures
        res.deep_view() == stored_tags(text@),
{
    match parse_string_array(text) {
        Ok(tags) => tags,
        Err(_) => {
            let res: Vec<String> = Vec::new();
            assert(res.deep_view() =~= Seq::<Seq<char>>::empty());
            res
        },
    }
}

/// Writes tags in their stored form, a JSON array of strings.
pub fn tags_to_json(tags: &Vec<String>) -> (res: String)
    ensures
        res@ == tags_text(tags.deep_view()),
        stored_tags(res@) == tags.deep_view(),
{
    match write_string_array(tags) {
        Ok(text) => text,
        Err(_) => String::from_str("[]"),
    }
}

} // verus!
