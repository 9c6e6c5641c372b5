//! Wire protocol: every message is a fixed header followed by a payload.

pub mod clipboard;
pub mod cursor;
pub mod error;
pub mod frame;
pub mod handshake;
pub mod header;
pub mod input;
pub mod layout;
pub mod monitor;
pub mod resize;
pub mod target_resolution;
pub mod wire;

pub use error::ProtoError;
