//! Parts meant for a live producer/consumer pipeline.
pub mod ring_buffer;
pub mod source;
