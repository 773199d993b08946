//! Lyrics search: request/result model, scoring, providers and text utilities.

pub mod search;
pub mod error;
pub mod match_score;
pub mod model;
pub mod providers;
pub mod quality;
pub mod util;
