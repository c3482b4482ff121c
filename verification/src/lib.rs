//! Core logic of a voice-assistant front end: audio segmentation, streaming
//! playback coordination and the speech-synthesis control protocol.

pub mod audio;
pub mod audio_resampler;
pub mod capture;
pub mod clock;
pub mod commands;
pub mod endpointing;
pub mod frames;
pub mod human_format;
pub mod rolling_buffer;
pub mod speech_listener;
pub mod streaming;
pub mod synthesis_session;
pub mod text;
pub mod timer;
pub mod transcript;
pub mod tts_protocol;
pub mod weather;
