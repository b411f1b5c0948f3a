//! Playback of decoded samples and the decisions taken while decoding a file.

pub mod audio_player;
pub mod processing;
