pub mod accumulator;
pub mod chunks;
pub mod laws;
pub mod message;
pub mod message_laws;
pub mod sse;
pub mod sse_laws;
pub mod tool_calls;
