//! A buffered log ingestion and flush engine.
//!
//! Log lines arrive from many producer connections as newline-delimited
//! byte streams. Each connection reassembles complete messages from its
//! stream and appends them to a shared buffer. The buffer is drained into
//! immutable batches — on a timer cadence, when it crosses a size
//! threshold, or once on shutdown — and each non-empty batch is rendered
//! and handed to a downstream sink.
//!
//! This crate holds the engine's logic: the buffer with its atomic
//! drain, message framing, the flush decision, batch rendering, and the
//! producer client's reconnect state machine. The surrounding process
//! (sockets, timers, signals, the sink command) drives these functions
//! from ordinary asynchronous code.

pub mod buffer;
pub mod coordinator;
pub mod framing;
pub mod handler;
pub mod producer;
pub mod render;

pub use buffer::Buffer;
pub use framing::FrameAccumulator;
