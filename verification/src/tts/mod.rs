//! Text-to-speech support: text frontend, voice activity segmentation and
//! WAV bookkeeping. Model inference runs outside this library.

use vstd::prelude::*;

pub mod cosyvoice;
pub mod python_abi;
pub mod python_command;
pub mod sampling;
pub mod text;
pub mod vad;
pub mod wav;

verus! {

#[verifier::external_type_specification]
#[verifier::external_body]
pub struct ExIoError(std::io::Error);

#[verifier::external_type_specification]
#[verifier::external_body]
pub struct ExJsonError(serde_json::Error);

/// Errors of the text-to-speech pipeline.
#[derive(Debug)]
pub enum TtsError {
    InvalidArg(String),
    Canceled,
    Io(std::io::Error),
    Json(serde_json::Error),
    Tokenizer(String),
    Candle(String),
    Vad(String),
    NotImplemented(&'static str),
}

} // verus!
