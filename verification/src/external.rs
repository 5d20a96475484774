//! Declarations of outside types that the library carries through opaquely.

use vstd::prelude::*;

verus! {

/// `std::io::Error`, carried inside error values.
#[verifier::external_type_specification]
#[verifier::external_body]
pub struct ExIoError(std::io::Error);

/// `serde_json::Error`, carried inside error values.
#[verifier::external_type_specification]
#[verifier::external_body]
pub struct ExJsonError(serde_json::Error);

/// `serde_json::Value`, an opaque JSON document carried through manifests
/// and plugin configurations.
#[verifier::external_type_specification]
#[verifier::external_body]
pub struct ExJsonValue(serde_json::Value);

/// `std::path::PathBuf`, carried in worktree descriptions.
#[verifier::external_type_specification]
#[verifier::external_body]
pub struct ExPathBuf(std::path::PathBuf);

/// `Clone::clone` of a JSON document: the copy is the same document.
pub assume_specification[ <serde_json::Value as Clone>::clone ](v: &serde_json::Value) -> (r: serde_json::Value)
    ensures
        r == *v,
;

/// `Clone::clone` of a path buffer: the copy is the same path.
pub assume_specification[ <std::path::PathBuf as Clone>::clone ](p: &std::path::PathBuf) -> (r: std::path::PathBuf)
    ensures
        r == *p,
;

/// Builds `serde_json::Value::Null`, the JSON `null` document. Nothing about
/// the value is stated: the library has no view of JSON documents.
#[verifier::external_body]
pub(crate) fn json_null() -> serde_json::Value {
    serde_json::Value::Null
}

/// Renders an I/O error with its `Display` implementation. Nothing is stated
/// of the text: for operating-system errors it comes from the platform.
#[verifier::external_body]
pub(crate) fn io_error_text(e: &std::io::Error) -> String {
    format!("{}", e)
}

/// Renders a JSON error with its `Display` implementation. Nothing is stated
/// of the text, which serde_json composes from the error's kind and position.
#[verifier::external_body]
pub(crate) fn json_error_text(e: &serde_json::Error) -> String {
    format!("{}", e)
}

} // verus!
