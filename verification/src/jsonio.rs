use vstd::prelude::*;

verus! {

// The JSON sub-format of the four JSON-bearing variants is delegated to
// serde_json.  Each parse outcome below depends on the input text alone,
// so it is given a name; the wrappers state their results over those
// names, and the rest of the crate is verified against them.

/// The result of reading `s` as a JSON array of strings: the strings in
/// order, or nothing when `s` is not such an array.
pub uninterp spec fn json_string_list_of(s: Seq<char>) -> Option<Seq<Seq<char>>>;

/// The result of reading `s` as a JSON array of 32-bit integers: the
/// integers in order, or nothing when `s` is not such an array.
pub uninterp spec fn json_int_list_of(s: Seq<char>) -> Option<Seq<i32>>;

/// The debug rendering of the JSON value that `s` denotes, or nothing
/// when `s` is not a single valid JSON value.
pub uninterp spec fn json_value_debug_of(s: Seq<char>) -> Option<Seq<char>>;

/// The debug renderings, element by element, of the JSON values in the
/// array that `s` denotes, or nothing when `s` is not a JSON array.
pub uninterp spec fn json_list_debug_of(s: Seq<char>) -> Option<Seq<Seq<char>>>;

/// The canonical rendering of the decimal number that `s` denotes, or
/// nothing when `s` is not a valid decimal number.
pub uninterp spec fn number_canon_of(s: Seq<char>) -> Option<Seq<char>>;

/// The debug form of a string: quoted, with the quoting and escaping that
/// the standard library's formatter applies.
pub uninterp spec fn str_debug_of(s: Seq<char>) -> Seq<char>;

/// Relies on serde_json::from_str for `Vec<String>`: it succeeds exactly on
/// a JSON array of strings and returns its elements in order.
#[verifier::external_body]
pub(crate) fn parse_string_list(s: &str) -> (r: Option<Vec<String>>)
    ensures
        r is Some <==> json_string_list_of(s@) is Some,
        r is Some ==> r->0.deep_view() == json_string_list_of(s@)->0,
{
    serde_json::from_str::<Vec<String>>(s).ok()
}

/// Relies on serde_json::from_str for `Vec<i32>`: it succeeds exactly on a
/// JSON array of integers in `i32` range and returns them in order.
#[verifier::external_body]
pub(crate) fn parse_int_list(s: &str) -> (r: Option<Vec<i32>>)
    ensures
        r is Some <==> json_int_list_of(s@) is Some,
        r is Some ==> r->0@ == json_int_list_of(s@)->0,
{
    serde_json::from_str::<Vec<i32>>(s).ok()
}

/// Relies on serde_json::from_str for `serde_json::Value`, which succeeds
/// exactly on one valid JSON value, and on that type's `Debug` rendering.
#[verifier::external_body]
pub(crate) fn parse_json_debug(s: &str) -> (r: Option<String>)
    ensures
        r is Some <==> json_value_debug_of(s@) is Some,
        r is Some ==> r->0@ == json_value_debug_of(s@)->0,
{
    serde_json::from_str::<serde_json::Value>(s).ok().map(|v| format!("{:?}", v))
}

/// Relies on serde_json::from_str for `Vec<serde_json::Value>`, which
/// succeeds exactly on a JSON array, and on `serde_json::Value`'s `Debug`
/// rendering of each element.
#[verifier::external_body]
pub(crate) fn parse_json_list_debug(s: &str) -> (r: Option<Vec<String>>)
    ensures
        r is Some <==> json_list_debug_of(s@) is Some,
        r is Some ==> r->0.deep_view() == json_list_debug_of(s@)->0,
{
    serde_json::from_str::<Vec<serde_json::Value>>(s)
        .ok()
        .map(|v| v.iter().map(|x| format!("{:?}", x)).collect())
}

/// Relies on serde_json::from_str for `serde_json::Number`, which succeeds
/// exactly on one decimal number, and on `Number`'s display rendering,
/// which prints the shortest text that reads back as the same number.
#[verifier::external_body]
pub(crate) fn parse_number_text(s: &str) -> (r: Option<String>)
    ensures
        r is Some <==> number_canon_of(s@) is Some,
        r is Some ==> r->0@ == number_canon_of(s@)->0,
{
    serde_json::from_str::<serde_json::Number>(s).ok().map(|n| n.to_string())
}

/// Relies on the standard library's `Debug` formatting of `str`: the
/// result depends on the characters alone.
#[verifier::external_body]
pub(crate) fn debug_quoted(s: &str) -> (r: String)
    ensures
        r@ == str_debug_of(s@),
{
    format!("{:?}", s)
}

} // verus!
