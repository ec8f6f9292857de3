//! A small audio-decoding pipeline stage: it turns an in-memory WAV byte
//! stream into a lazily produced sequence of normalized samples, and provides
//! a generic adapter that re-exposes such a stream under a different sample
//! representation.
//!
//! Normalized amplitudes are held exactly as fixed-point integers: a sample
//! value `v` in `[-1.0, 1.0]` is stored as the integer `v * 2^31`, so every
//! scaling and quantization rule is stated and proved bit-exactly.

pub mod sample;
pub mod stream;
pub mod codec;
pub mod source;
pub mod wav;
pub mod convert;

pub use convert::SamplesConverter;
pub use sample::{Norm, Sample};
pub use source::Source;
pub use stream::ByteStream;
pub use wav::WavDecoder;
