//! Core logic of an eight-channel synthesizer and sampler: voice allocation,
//! envelope stages, note naming, MIDI decoding, plugin bookkeeping and the
//! state that the user interface keeps per channel.

pub mod audio;
pub mod pool;
pub mod text;
pub mod midi;
pub mod plugins;
pub mod ui;
pub mod engine;
