//! A small audio mixing core: it negotiates a common output format, keeps a
//! registry of live WAV sample streams, and sums their interleaved samples
//! into one output sample per call, with equal-weight scaling and saturation.
//!
//! The surrounding application owns the audio device and its callback thread;
//! this crate holds the logic those threads share: format negotiation, the
//! stream registry, and the per-sample mixing pass.

pub mod decode;
pub mod format;
pub mod mixer;
pub mod sample;

pub use format::AudioError;
pub use format::AudioFormat;
pub use format::DeviceFormatRange;
pub use format::SampleKind;
pub use format::WavMeta;
