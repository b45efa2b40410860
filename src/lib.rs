//! Fixed-capacity circular buffers: an owning FIFO ring buffer with read-only
//! views over its contents, and a single-producer/single-consumer ring buffer
//! that keeps one slot free to tell "empty" from "full".
pub mod traits;
pub mod buffer;
pub mod realtime;
pub mod laws;
