//! GLAP, a terminal audio player: the playback cursor, the player's input
//! handling, theme colours and the MIDI reader of its first version.

pub mod audio;
pub mod audio_player;
pub mod app;
pub mod utils;
pub mod config;
pub mod midi;
