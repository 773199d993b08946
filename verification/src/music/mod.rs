//! Music catalogue model and the pure parts of the music providers.

pub mod catalog;
pub mod error;
pub mod kugou_client;
pub mod model;
pub mod providers;
pub mod qq_login;
pub mod requests;
pub mod util;
