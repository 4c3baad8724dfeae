//! Text-markup compiler and synthesis orchestration for a text-to-speech service.

pub mod api;
pub mod dsl;
pub mod error;
pub mod text;
pub mod tts;
