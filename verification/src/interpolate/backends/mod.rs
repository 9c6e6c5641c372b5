//! Pluggable interpolation backend implementations.
//!
//! The GPU backends are given here as what they ask of the GPU: resources and
//! commands as data, and the frames made of what it hands back.

pub mod common;
pub mod ffx_fg;
pub mod fsr2;
pub mod fsr2_native;
pub mod fsr2_rife;
pub mod fsr3;
pub mod fsr3_frame_gen;
pub mod nvidia_optical_flow;
pub mod rife;
pub mod wgpu_optical_flow;
