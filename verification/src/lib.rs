pub mod audio_clock;
pub mod audio_peer;
pub mod call;
pub mod channel;
pub mod config;
pub mod control;
pub mod document;
pub mod escape;
pub mod json;
pub mod line_text;
pub mod message;
pub mod message_doc;
pub mod payload;
pub mod pipe_audio;
pub mod platform;
pub mod text;
