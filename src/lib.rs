//! Debugging peer for a task-based runtime instrumentation protocol: a codec for the
//! fixed 64-byte frames exchanged with the runtime, and a model of the task/function graph
//! that the received events describe.
pub mod codec;
pub mod events;
pub mod text;
pub mod state;
pub mod requests;
pub mod handlers;
