//! JSON text recognised through `serde_json`.
use vstd::prelude::*;

verus! {

/// Whether `serde_json` accepts the bytes as one JSON document.
pub uninterp spec fn is_json_document(bytes: Seq<u8>) -> bool;

/// Calls `serde_json::from_slice::<serde_json::Value>` and reports whether it
/// succeeded; the result is fixed by the bytes alone.
#[verifier::external_body]
pub(crate) fn json_parses(bytes: &[u8]) -> (r: bool)
    ensures
        r == is_json_document(bytes@),
{
    serde_json::from_slice::<serde_json::Value>(bytes).is_ok()
}

/// `v[key].as_str()` for the document `v` the bytes hold, when they parse.
pub uninterp spec fn json_member_str(bytes: Seq<u8>, key: Seq<char>) -> Option<Seq<char>>;

/// `v[0][key].as_str()` for the document `v` the bytes hold, when they parse.
pub uninterp spec fn json_first_member_str(bytes: Seq<u8>, key: Seq<char>) -> Option<Seq<char>>;

/// Calls `serde_json::from_slice::<serde_json::Value>`, then indexes the
/// document by `key` and takes the string there. `Err` exactly when the bytes
/// are not a JSON document; otherwise the string, fixed by bytes and key.
#[verifier::external_body]
pub(crate) fn member_str(bytes: &[u8], key: &str) -> (r: Result<Option<String>, ()>)
    ensures
        (r is Err) == !is_json_document(bytes@),
        r matches Ok(o) ==> (match o {
            Some(s) => json_member_str(bytes@, key@) == Some(s@),
            None => json_member_str(bytes@, key@) is None,
        }),
{
    match serde_json::from_slice::<serde_json::Value>(bytes) {
        Ok(v) => Ok(v[key].as_str().map(|s| s.to_string())),
        Err(_) => Err(()),
    }
}

/// Calls `serde_json::from_slice::<serde_json::Value>`, then indexes the
/// document by `0` and then by `key` and takes the string there. `Err` exactly
/// when the bytes are not a JSON document.
#[verifier::external_body]
pub(crate) fn first_member_str(bytes: &[u8], key: &str) -> (r: Result<Option<String>, ()>)
    ensures
        (r is Err) == !is_json_document(bytes@),
        r matches Ok(o) ==> (match o {
            Some(s) => json_first_member_str(bytes@, key@) == Some(s@),
            None => json_first_member_str(bytes@, key@) is None,
        }),
{
    match serde_json::from_slice::<serde_json::Value>(bytes) {
        Ok(v) => Ok(v[0][key].as_str().map(|s| s.to_string())),
        Err(_) => Err(()),
    }
}

} // verus!
