//! Reading single members of a JSON object.
use vstd::prelude::*;

use crate::http::opt_text;

verus! {

/// What `serde_json` finds in a body under a key: nothing when the body is not
/// JSON; otherwise the member's text, where it is an object with a text under
/// that key.
pub uninterp spec fn json_member(body: Seq<u8>, key: Seq<char>) -> Option<Option<Seq<char>>>;

/// The contents of an optional optional string.
pub open spec fn opt_opt_text(o: Option<Option<String>>) -> Option<Option<Seq<char>>> {
    match o {
        Some(t) => Some(opt_text(t)),
        None => None,
    }
}

/// `serde_json::from_slice` into a `Value`, read with `get` and `as_str`: a
/// function of the bytes and the key alone.
#[verifier::external_body]
fn read_member(body: &[u8], key: &str) -> (r: Option<Option<String>>)
    ensures
        opt_opt_text(r) == json_member(body@, key@),
{
    let value: serde_json::Value = serde_json::from_slice(body).ok()?;
    Some(value.get(key).and_then(serde_json::Value::as_str).map(str::to_string))
}

/// The text of a member of a JSON object; absent when the body is not JSON.
pub fn member(body: &[u8], key: &str) -> (r: Option<Option<String>>)
    ensures
        opt_opt_text(r) == json_member(body@, key@),
{
    read_member(body, key)
}

} // verus!
