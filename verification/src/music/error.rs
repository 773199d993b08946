//! Errors of the music providers.

use vstd::prelude::*;

verus! {

/// Errors of the music providers.
#[derive(Debug)]
pub enum MusicError {
    InvalidInput(String),
    UnsupportedService(String),
    NotConfigured(String),
    Unauthorized(String),
    Http(reqwest::Error),
    Io(std::io::Error),
    Json(serde_json::Error),
    Parse(String),
    Other(String),
}

} // verus!
