//! Multiplexed transport: many logical streams share one byte pipe.

pub mod buffer;
pub mod chunk_sender;
pub mod flow_control;
pub mod laws;
pub mod multiplexer;
pub mod ssh_transport;
