//! The decisions, text rules and pixel arithmetic of a dictation companion.
//!
//! Everything here computes on plain values. Microphones, windows, network
//! requests and clocks belong to the program around the library, which hands
//! their results in and carries the returned actions out.

pub mod audio;
pub mod composition;
pub mod config;
pub mod fal_client;
pub mod http;
pub mod json;
pub mod logger;
pub mod native_overlay;
pub mod observability;
pub mod overlay_text;
pub mod pill_renderer;
pub mod spoken_punctuation;
pub mod stt;
pub mod text;
pub mod ui_app;
pub mod voice;
pub mod voice_audio;
pub mod win32_service;
