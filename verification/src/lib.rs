//! Orchestration of neural text-to-speech synthesis: sentence phonemes, voice
//! models, synthesis streams and PCM wave output, with machine-checked contracts.

pub mod error;
pub mod phonemes;
pub mod wave;
pub mod wave_writer;
pub mod model;
pub mod synth;
pub mod voice;
pub mod phonemize;
