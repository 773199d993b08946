//! Lyrics search, music catalogue and TTS text utilities with verified contracts.

mod clock;
pub mod textops;
pub mod regexes;
pub mod lyrics;
pub mod music;
pub mod subtitle;
pub mod now_playing;
pub mod tts;
pub mod voice_chat;
