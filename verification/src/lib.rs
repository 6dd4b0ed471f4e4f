//! Polyphonic guitar pitch detection: the integer core of note naming,
//! chord recognition, harmonic suppression, pitch histories and WAV framing.

pub mod audio_buffer;
pub mod chord;
pub mod detector;
pub mod devices;
pub mod ffi;
pub mod modulation;
pub mod notes;
pub mod types;
pub mod wav;
