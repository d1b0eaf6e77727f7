//! Playback core of a drum-pad sampler, in fixed-point arithmetic.
//!
//! Amplitudes are signed 32-bit integers in units of 2^-31, gains are signed
//! 32-bit integers in units of 2^-16. Decoding, peak extraction, the voice
//! table and the per-frame mix are all stated over mathematical integers and
//! sequences.

pub mod amplitude;
pub mod voice;
pub mod mixer;
pub mod decode;
pub mod wav;
pub mod peaks;
pub mod command;
pub mod event;
