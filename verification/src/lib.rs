//! Core of a streaming audio visualizer and player.
//!
//! A producer (a capture device or a media-file decoder) emits mono samples
//! into a channel; a consumer either frames them for spectral analysis and
//! renders quantized mel bands as terminal glyphs, or resamples them for an
//! output device. Amplitudes are carried as fixed-point integers so that
//! every stage's behaviour can be stated and proved exactly.

pub mod capture;
pub mod channel;
pub mod error;
pub mod mel;
pub mod pipeline;
pub mod render;
pub mod resample;
pub mod sample;
pub mod spectrogram;
