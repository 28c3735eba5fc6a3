//! Core of a small multi-track software synthesizer.
//!
//! The crate models the signal pipeline of a four-track digital audio
//! workstation: waveform generators, an attack-decay-sustain-release
//! envelope, delay/reverb/flanger filters built on circular buffers, the
//! track and master-bus state, a sample-accurate playback scheduler, and a
//! MIDI file codec for the recorded note lists.  Sample amplitudes and
//! gains are fixed-point integers throughout; time is counted in MIDI
//! ticks, audio samples, or milliseconds, never in floating seconds.

pub mod adsr_envelope;
pub mod graphics;
pub mod input;
pub mod midi;
pub mod mouse;
pub mod mixer;
pub mod music_theory;
pub mod effects;
pub mod scheduler;
pub mod state;
pub mod waveforms;
