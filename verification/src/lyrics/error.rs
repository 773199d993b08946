//! Errors of the lyrics search.

use vstd::prelude::*;

verus! {

#[verifier::external_type_specification]
#[verifier::external_body]
pub struct ExHttpError(reqwest::Error);

/// Errors of a lyrics provider.
#[derive(Debug)]
pub enum LyricsError {
    Http(reqwest::Error),
    Json(serde_json::Error),
    Parse(String),
    UnsupportedTerm,
}

} // verus!
