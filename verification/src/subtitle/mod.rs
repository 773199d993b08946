//! Subtitle file naming.

pub mod util;
