//! Verified core of `RemoteWay`, a remote desktop for Wayland over SSH.

pub mod interpolate;
pub mod proto;
pub mod server;
pub mod text;
pub mod transport;
pub mod vulkan;
