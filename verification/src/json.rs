//! Reading string fields of JSON documents (`serde_json`).
use vstd::prelude::*;

verus! {

/// What `serde_json` makes of a document and a key: `None` when the text is
/// no JSON, `Some(None)` when the document has no string under the key, and
/// `Some(Some(s))` when it has the string `s` there.
pub uninterp spec fn spec_json_str_field(json: Seq<char>, field: Seq<char>) -> Option<
    Option<Seq<char>>,
>;

/// `serde_json::from_str::<serde_json::Value>` on `json`, then `get(field)`
/// and `as_str()` on the value. `Err` when the text does not parse.
#[verifier::external_body]
pub(crate) fn json_str_field(json: &str, field: &str) -> (res: Result<Option<String>, ()>)
    ensures
        match spec_json_str_field(json@, field@) {
            None => res is Err,
            Some(None) => res == Ok::<Option<String>, ()>(None),
            Some(Some(s)) => res matches Ok(Some(t)) && t@ == s,
        },
{
    match serde_json::from_str::<serde_json::Value>(json) {
        Ok(v) => Ok(v.get(field).and_then(|x| x.as_str()).map(|x| x.to_string())),
        Err(_) => Err(()),
    }
}

} // verus!
