//! The JSON and UTF-8 conversions that the library hands to `serde_json` and
//! to std. Each function here is trusted: its contract is believed, not
//! proved, and says only what the called code's documentation and source show.
use vstd::prelude::*;
use vstd::utf8::{decode_utf8, valid_utf8};

verus! {

/// What `serde_json` makes of a request body: `None` where the text is not
/// JSON; `Some(None)` where it is JSON but not an object; otherwise the
/// object's members in the order in which `serde_json::Map` iterates them,
/// each as its key and the compact JSON text of its value
/// (`serde_json::Value::to_string`).
pub uninterp spec fn json_object_fields(text: Seq<char>) -> Option<
    Option<Seq<(Seq<char>, Seq<char>)>>,
>;

/// The compact JSON text of the object that maps each key to the string
/// value at the same position, built by `serde_json::Map::insert` and
/// written by `serde_json::Value::to_string`.
pub uninterp spec fn json_string_object_text(keys: Seq<Seq<char>>, values: Seq<Seq<char>>) -> Seq<
    char,
>;

/// The text that `serde_json::to_string_pretty` writes for the JSON value
/// that `serde_json::from_str` reads from `text`; `None` where either fails.
pub uninterp spec fn pretty_json_text(text: Seq<char>) -> Option<Seq<char>>;

/// The compact JSON text of the array of the strings `items`, written by
/// `serde_json::to_string`.
pub uninterp spec fn json_string_list_text(items: Seq<Seq<char>>) -> Seq<char>;

/// The text that `String::from_utf8_lossy` makes of `bytes`.
pub uninterp spec fn lossy_utf8_text(bytes: Seq<u8>) -> Seq<char>;

/// Reads `body` with `serde_json::from_str` as a `serde_json::Value` and,
/// where it is an object (`Value::as_object`), lists its members with each
/// value written back by `Value::to_string`. The contract claims only that
/// the outcome is `json_object_fields` of the text, the parse error being
/// passed on as `serde_json` made it.
#[verifier::external_body]
pub fn json_fields(body: &str) -> (r: Result<Option<Vec<(String, String)>>, serde_json::Error>)
    ensures
        match r {
            Err(_) => json_object_fields(body@) is None,
            Ok(None) => json_object_fields(body@) == Some(
                None::<Seq<(Seq<char>, Seq<char>)>>,
            ),
            Ok(Some(fields)) => json_object_fields(body@) == Some(Some(fields.deep_view())),
        },
{
    match serde_json::from_str::<serde_json::Value>(body) {
        Err(e) => Err(e),
        Ok(value) => match value.as_object() {
            None => Ok(None),
            Some(obj) => {
                let mut fields = Vec::new();
                for (key, member) in obj {
                    fields.push((key.clone(), member.to_string()));
                }
                Ok(Some(fields))
            },
        },
    }
}

/// Builds a `serde_json::Map` by inserting each key with its string value
/// (`serde_json::Value::String`), in order, and writes the object with
/// `serde_json::Value::to_string`. The contract claims only that the text is
/// `json_string_object_text` of the keys and values.
#[verifier::external_body]
pub fn json_string_object(keys: &Vec<String>, values: &Vec<String>) -> (r: String)
    ensures
        r@ == json_string_object_text(keys.deep_view(), values.deep_view()),
{
    let mut map = serde_json::Map::new();
    for (key, value) in keys.iter().zip(values.iter()) {
        map.insert(key.clone(), serde_json::Value::String(value.clone()));
    }
    serde_json::Value::Object(map).to_string()
}

/// Writes the strings as a JSON array with `serde_json::to_string`. That
/// serializer writes into a `Vec<u8>` and a list of strings gives it nothing
/// to refuse (serde_json's `to_string` fails only where a `Serialize` impl or
/// a non-string map key does), so the contract claims success, with the
/// text `json_string_list_text` of the strings.
#[verifier::external_body]
pub fn json_string_list(items: &Vec<String>) -> (r: Result<String, serde_json::Error>)
    ensures
        r is Ok,
        r matches Ok(s) ==> s@ == json_string_list_text(items.deep_view()),
{
    serde_json::to_string(items)
}

/// Reads `text` with `serde_json::from_str` as a `serde_json::Value` and
/// writes it with `serde_json::to_string_pretty`. The contract claims only
/// that the outcome is `pretty_json_text` of the text.
#[verifier::external_body]
pub fn pretty_json(text: &str) -> (r: Result<String, serde_json::Error>)
    ensures
        match r {
            Ok(s) => pretty_json_text(text@) == Some(s@),
            Err(_) => pretty_json_text(text@) is None,
        },
{
    let json: serde_json::Value = serde_json::from_str(text)?;
    serde_json::to_string_pretty(&json)
}

/// `String::from_utf8_lossy`: valid UTF-8 is decoded as it is; invalid
/// sequences become U+FFFD, which the contract leaves to the name
/// `lossy_utf8_text`.
#[verifier::external_body]
pub fn utf8_lossy(bytes: &[u8]) -> (r: String)
    ensures
        r@ == lossy_utf8_text(bytes@),
        valid_utf8(bytes@) ==> r@ == decode_utf8(bytes@),
{
    String::from_utf8_lossy(bytes).into_owned()
}

/// `String::from_utf8`: the decoded text where `bytes` are valid UTF-8,
/// otherwise nothing.
#[verifier::external_body]
pub fn utf8_string(bytes: Vec<u8>) -> (r: Option<String>)
    ensures
        r is Some <==> valid_utf8(bytes@),
        r matches Some(s) ==> s@ == decode_utf8(bytes@),
{
    String::from_utf8(bytes).ok()
}

} // verus!
