//! Integer-domain sine oscillator and sample encoder for a streaming audio
//! producer.
//!
//! The oscillator tracks the position in the waveform as an exact integer
//! phase, so that the samples of consecutive blocks join without a seam. The
//! encoder lays 32-bit samples out as bytes in a chosen byte order.

pub mod byte_order;
pub mod driver;
pub mod encoder;
pub mod generator;
