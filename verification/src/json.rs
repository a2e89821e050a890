//! Structured boundary payloads.
//!
//! Events pushed across the boundary arrive as `serde_json::Value` trees. The
//! value is opaque here; the wrappers below hand its structure out as plain
//! values, and the verified decoders elsewhere state what is returned for
//! every shape the boundary can send.

use vstd::prelude::*;

verus! {

#[verifier::external_type_specification]
#[verifier::external_body]
pub struct ExValue(serde_json::Value);

/// Relies on `serde_json::Value::as_array`: `Some` exactly when the value is
/// a JSON array; the elements are handed back as an owned vector.
#[verifier::external_body]
pub(crate) fn value_as_array(v: &serde_json::Value) -> (r: Option<Vec<serde_json::Value>>) {
    v.as_array().cloned()
}

/// Relies on `serde_json::Value::as_str`: `Some` exactly when the value is a
/// JSON string; the text is handed back as an owned string.
#[verifier::external_body]
pub(crate) fn value_as_string(v: &serde_json::Value) -> (r: Option<String>) {
    match v.as_str() {
        Some(s) => Some(s.to_string()),
        None => None,
    }
}

/// Relies on `serde_json::Value::as_u64`: `Some` exactly when the value is a
/// number representable as `u64`.
#[verifier::external_body]
pub(crate) fn value_as_u64(v: &serde_json::Value) -> (r: Option<u64>) {
    v.as_u64()
}

} // verus!
