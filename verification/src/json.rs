//! Reading one string out of an engine's JSON answer.
use vstd::prelude::*;

verus! {

/// The list of alternatives in a chat completion.
pub const CHOICES: &'static str = "choices";

/// The field of a message or delta that holds its text.
pub const CONTENT: &'static str = "content";

/// What `serde_json::from_str::<serde_json::Value>(text)` and then
/// `v[list][index][part][key].as_str()` give: `None` when `text` is not
/// JSON, `Some(None)` when no string stands there, `Some(Some(s))` with the
/// string otherwise.
pub uninterp spec fn json_text_str(
    text: Seq<char>,
    list: Seq<char>,
    index: usize,
    part: Seq<char>,
    key: Seq<char>,
) -> Option<Option<Seq<char>>>;

/// The same lookup after `serde_json::from_slice::<serde_json::Value>(bytes)`.
pub uninterp spec fn json_bytes_str(
    bytes: Seq<u8>,
    list: Seq<char>,
    index: usize,
    part: Seq<char>,
    key: Seq<char>,
) -> Option<Option<Seq<char>>>;

/// Whether `serde_json::from_slice::<serde_json::Value>` accepts `bytes` as
/// JSON.
pub uninterp spec fn json_bytes_parse(bytes: Seq<u8>) -> bool;

/// What `serde_json::from_slice::<serde_json::Value>(bytes)` and then
/// `v[key].as_str()` give: `None` when `bytes` is not JSON, `Some(None)`
/// when no string stands there.
pub uninterp spec fn json_bytes_key_str(bytes: Seq<u8>, key: Seq<char>) -> Option<Option<Seq<char>>>;

/// What `serde_json::from_slice::<serde_json::Value>(bytes)` and then
/// `v[key].as_array()` give, each element taken by `as_str`: `None` when
/// `bytes` is not JSON, `Some(None)` when no array stands there.
pub uninterp spec fn json_bytes_items(bytes: Seq<u8>, key: Seq<char>) -> Option<
    Option<Seq<Option<Seq<char>>>>,
>;

/// What `serde_json::from_slice::<serde_json::Value>(bytes)` and then
/// `v[outer][inner].as_array()` give, each element `x` taken as
/// `x[field].as_str()`: `None` when `bytes` is not JSON, `Some(None)` when
/// no array stands there.
pub uninterp spec fn json_bytes_field_items(
    bytes: Seq<u8>,
    outer: Seq<char>,
    inner: Seq<char>,
    field: Seq<char>,
) -> Option<Option<Seq<Option<Seq<char>>>>>;

/// Each item's text, where it has one.
pub open spec fn item_views(v: Seq<Option<String>>) -> Seq<Option<Seq<char>>> {
    v.map_values(
        |o: Option<String>|
            match o {
                Some(s) => Some(s@),
                None => None,
            },
    )
}

pub open spec fn opt_item_views(o: Option<Vec<Option<String>>>) -> Option<Seq<Option<Seq<char>>>> {
    match o {
        Some(v) => Some(item_views(v@)),
        None => None,
    }
}

pub open spec fn items_result_view(r: Option<Option<Vec<Option<String>>>>) -> Option<
    Option<Seq<Option<Seq<char>>>>,
> {
    match r {
        Some(o) => Some(opt_item_views(o)),
        None => None,
    }
}

pub open spec fn opt_opt_view(r: Option<Option<String>>) -> Option<Option<Seq<char>>> {
    match r {
        Some(Some(s)) => Some(Some(s@)),
        Some(None) => Some(None),
        None => None,
    }
}

/// Parses `text` with `serde_json::from_str::<serde_json::Value>`, indexes
/// it with `Value`'s `Index` (which gives `Null` for a missing field, an
/// index out of range or a value of the wrong kind, and never panics) and
/// takes the string with `Value::as_str`. The contract only names the
/// result: it is a function of the arguments, and nothing more of it is
/// stated.
#[verifier::external_body]
pub(crate) fn json_text_str_at(
    text: &str,
    list: &str,
    index: usize,
    part: &str,
    key: &str,
) -> (r: Option<Option<String>>)
    ensures
        opt_opt_view(r) == json_text_str(text@, list@, index, part@, key@),
{
    match serde_json::from_str::<serde_json::Value>(text) {
        Ok(v) => Some(v[list][index][part][key].as_str().map(|s| s.to_string())),
        Err(_) => None,
    }
}

/// The same lookup on the bytes of an answer, parsed with
/// `serde_json::from_slice::<serde_json::Value>`. The contract names the
/// result, and states that it is `None` exactly when the bytes are not
/// JSON.
#[verifier::external_body]
pub(crate) fn json_bytes_str_at(
    bytes: &[u8],
    list: &str,
    index: usize,
    part: &str,
    key: &str,
) -> (r: Option<Option<String>>)
    ensures
        opt_opt_view(r) == json_bytes_str(bytes@, list@, index, part@, key@),
        r is None <==> !json_bytes_parse(bytes@),
{
    match serde_json::from_slice::<serde_json::Value>(bytes) {
        Ok(v) => Some(v[list][index][part][key].as_str().map(|s| s.to_string())),
        Err(_) => None,
    }
}

/// `serde_json::from_slice::<serde_json::Value>`, then `v[key]` and
/// `Value::as_str`. The contract names the result, and states that it is
/// `None` exactly when the bytes are not JSON.
#[verifier::external_body]
pub(crate) fn json_bytes_key_str_at(bytes: &[u8], key: &str) -> (r: Option<Option<String>>)
    ensures
        opt_opt_view(r) == json_bytes_key_str(bytes@, key@),
        r is None <==> !json_bytes_parse(bytes@),
{
    match serde_json::from_slice::<serde_json::Value>(bytes) {
        Ok(v) => Some(v[key].as_str().map(|s| s.to_string())),
        Err(_) => None,
    }
}

/// `serde_json::from_slice::<serde_json::Value>`, then `v[key]`,
/// `Value::as_array` and `Value::as_str` on each element, one for one. The
/// contract names the result, and states that it is `None` exactly when
/// the bytes are not JSON.
#[verifier::external_body]
pub(crate) fn json_bytes_items_at(bytes: &[u8], key: &str) -> (r: Option<Option<Vec<Option<String>>>>)
    ensures
        items_result_view(r) == json_bytes_items(bytes@, key@),
        r is None <==> !json_bytes_parse(bytes@),
{
    match serde_json::from_slice::<serde_json::Value>(bytes) {
        Ok(v) => Some(v[key].as_array().map(|a| a.iter().map(|x| x.as_str().map(|s| s.to_string())).collect())),
        Err(_) => None,
    }
}

/// `serde_json::from_slice::<serde_json::Value>`, then `v[outer][inner]`,
/// `Value::as_array`, and `x[field]` with `Value::as_str` on each element,
/// one for one. The contract names the result, and states that it is
/// `None` exactly when the bytes are not JSON.
#[verifier::external_body]
pub(crate) fn json_bytes_field_items_at(
    bytes: &[u8],
    outer: &str,
    inner: &str,
    field: &str,
) -> (r: Option<Option<Vec<Option<String>>>>)
    ensures
        items_result_view(r) == json_bytes_field_items(bytes@, outer@, inner@, field@),
        r is None <==> !json_bytes_parse(bytes@),
{
    match serde_json::from_slice::<serde_json::Value>(bytes) {
        Ok(v) => Some(v[outer][inner].as_array().map(|a| a.iter().map(|x| x[field].as_str().map(|s| s.to_string())).collect())),
        Err(_) => None,
    }
}

} // verus!
